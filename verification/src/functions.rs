//! The functions of a protocol: those that the guest exports for the host
//! to call, and those that it imports from the host.
use crate::errors::GenerationError;
use crate::types::enums::{Type, TypeModel};
use crate::types::type_ident::{strings_view, IdentModel, TypeIdent};
use crate::types::type_map::TypeMap;
use vstd::prelude::*;

verus! {

/// An argument of a function.
#[derive(Debug, Clone, PartialEq)]
pub struct FunctionArg {
    pub name: String,
    pub ty: TypeIdent,
}

/// The mathematical value of a [`FunctionArg`].
pub ghost struct FunctionArgModel {
    pub name: Seq<char>,
    pub ty: IdentModel,
}

impl View for FunctionArg {
    type V = FunctionArgModel;

    open spec fn view(&self) -> FunctionArgModel {
        FunctionArgModel { name: self.name@, ty: self.ty@ }
    }
}

/// The values of a sequence of arguments.
pub open spec fn args_view(s: Seq<FunctionArg>) -> Seq<FunctionArgModel> {
    s.map_values(|a: FunctionArg| a@)
}

/// The signature of a function that crosses the boundary.
#[derive(Debug, Clone, PartialEq)]
pub struct Function {
    pub name: String,
    pub doc_lines: Vec<String>,
    pub args: Vec<FunctionArg>,
    /// The type of the result; none if the function gives none.
    pub return_type: Option<TypeIdent>,
    /// Whether the caller gets a handle at once and the result when the
    /// call is resolved.
    pub is_async: bool,
}

/// The mathematical value of a [`Function`].
pub ghost struct FunctionModel {
    pub name: Seq<char>,
    pub doc_lines: Seq<Seq<char>>,
    pub args: Seq<FunctionArgModel>,
    pub return_type: Option<IdentModel>,
    pub is_async: bool,
}

impl View for Function {
    type V = FunctionModel;

    open spec fn view(&self) -> FunctionModel {
        FunctionModel {
            name: self.name@,
            doc_lines: strings_view(self.doc_lines@),
            args: args_view(self.args@),
            return_type: match self.return_type {
                Some(ty) => Some(ty@),
                None => None,
            },
            is_async: self.is_async,
        }
    }
}

/// How the result of a call comes back.
#[derive(Debug, Clone, Copy, PartialEq, Eq, Structural)]
pub enum Returns {
    /// There is no result.
    Nothing,
    /// In the register that the function hands back.
    Register,
    /// Through guest memory, under the handle that the function hands back.
    Memory,
    /// Later: the function hands back the handle of a pending call, and the
    /// result comes through guest memory when the call is resolved.
    Deferred,
}

/// How the values of a function travel.
#[derive(Debug, Clone, PartialEq, Eq)]
pub struct Passing {
    /// For each argument, whether it travels through guest memory.
    pub args_in_memory: Vec<bool>,
    pub result: Returns,
}

/// The mathematical value of a [`Passing`].
pub ghost struct PassingModel {
    pub args_in_memory: Seq<bool>,
    pub result: Returns,
}

impl View for Passing {
    type V = PassingModel;

    open spec fn view(&self) -> PassingModel {
        PassingModel { args_in_memory: self.args_in_memory@, result: self.result }
    }
}

/// Whether a value of the registered type `ident` travels through guest
/// memory: every value does but a primitive.
pub open spec fn in_memory(ident: IdentModel, types: Map<IdentModel, TypeModel>) -> bool {
    !(types[ident] is Primitive)
}

impl FunctionModel {
    /// The types of the arguments and of the result, in this order.
    pub open spec fn types_used(self) -> Seq<IdentModel> {
        let args = self.args.map_values(|a: FunctionArgModel| a.ty);
        match self.return_type {
            Some(ty) => args.push(ty),
            None => args,
        }
    }

    /// The first type of the signature that is not registered in `types`.
    pub open spec fn first_unresolved(self, types: Map<IdentModel, TypeModel>) -> Option<
        IdentModel,
    > {
        crate::validate::first_missing(self.types_used(), types)
    }

    /// How the values of the function travel, its types being registered.
    pub open spec fn passing(self, types: Map<IdentModel, TypeModel>) -> PassingModel {
        PassingModel {
            args_in_memory: Seq::new(
                self.args.len(),
                |i: int| in_memory(self.args[i].ty, types),
            ),
            result: if self.is_async {
                Returns::Deferred
            } else {
                match self.return_type {
                    None => Returns::Nothing,
                    Some(ty) => if in_memory(ty, types) {
                        Returns::Memory
                    } else {
                        Returns::Register
                    },
                }
            },
        }
    }
}

impl Function {
    /// How the values of the function travel across the boundary. All the
    /// types of the signature have to be registered: the error names the
    /// first one that is not.
    pub fn passing(&self, types: &TypeMap) -> (r: Result<Passing, GenerationError>)
        ensures
            match r {
                Ok(passing) => self@.first_unresolved(types@) is None && passing@
                    == self@.passing(types@),
                Err(e) => e matches GenerationError::UnresolvedType(ident)
                    && self@.first_unresolved(types@) == Some(ident@),
            },
    {
        let ghost used = self@.types_used();
        let ghost arg_types = self@.args.map_values(|a: FunctionArgModel| a.ty);
        let mut args_in_memory: Vec<bool> = Vec::new();
        let mut i: usize = 0;
        assert(used.skip(0) =~= used);
        while i < self.args.len()
            invariant
                i <= self.args.len(),
                used == self@.types_used(),
                arg_types == self@.args.map_values(|a: FunctionArgModel| a.ty),
                crate::validate::first_missing(used.skip(i as int), types@)
                    == crate::validate::first_missing(used, types@),
                args_in_memory.len() == i,
                forall|j: int|
                    0 <= j < i ==> args_in_memory[j] == in_memory(self@.args[j].ty, types@),
            decreases self.args.len() - i,
        {
            assert(used[i as int] == arg_types[i as int]);
            assert(used.skip(i as int)[0] == self.args[i as int].ty@);
            assert(used.skip(i as int).skip(1) =~= used.skip(i + 1));
            match types.get(&self.args[i].ty) {
                None => {
                    return Err(GenerationError::UnresolvedType(self.args[i].ty.clone()));
                },
                Some(Type::Primitive(_)) => {
                    args_in_memory.push(false);
                },
                Some(_) => {
                    args_in_memory.push(true);
                },
            }
            i += 1;
        }
        let ghost rest = used.skip(self.args.len() as int);
        let result_in_memory = match &self.return_type {
            None => {
                assert(rest =~= Seq::<IdentModel>::empty());
                None
            },
            Some(ty) => {
                assert(rest =~= seq![ty@]);
                assert(rest.skip(1) =~= Seq::<IdentModel>::empty());
                assert(crate::validate::first_missing(rest.skip(1), types@) is None);
                match types.get(ty) {
                    None => {
                        return Err(GenerationError::UnresolvedType(ty.clone()));
                    },
                    Some(Type::Primitive(_)) => Some(false),
                    Some(_) => Some(true),
                }
            },
        };
        assert(crate::validate::first_missing(rest, types@) is None);
        let result = if self.is_async {
            Returns::Deferred
        } else {
            match result_in_memory {
                None => Returns::Nothing,
                Some(true) => Returns::Memory,
                Some(false) => Returns::Register,
            }
        };
        assert(args_in_memory@ =~= self@.passing(types@).args_in_memory);
        Ok(Passing { args_in_memory, result })
    }
}

/// The functions of one direction. No two of them have the same name; they
/// are kept in the order in which they were added.
#[derive(Debug)]
pub struct FunctionList {
    functions: Vec<Function>,
}

/// Whether one of `functions` has the name `name`.
pub open spec fn has_name(functions: Seq<Function>, name: Seq<char>) -> bool {
    exists|i: int| 0 <= i < functions.len() && (#[trigger] functions[i]).name@ == name
}

/// No name occurs twice among `functions`.
pub open spec fn distinct_names(functions: Seq<Function>) -> bool {
    forall|i: int, j: int|
        0 <= i < j < functions.len() ==> (#[trigger] functions[i]).name@
            != (#[trigger] functions[j]).name@
}

/// The values of a sequence of functions.
pub open spec fn functions_view(s: Seq<Function>) -> Seq<FunctionModel> {
    s.map_values(|f: Function| f@)
}

impl View for FunctionList {
    type V = Seq<FunctionModel>;

    closed spec fn view(&self) -> Seq<FunctionModel> {
        functions_view(self.functions@)
    }
}

/// Whether one of `functions` has the name `name`.
pub open spec fn declares(functions: Seq<FunctionModel>, name: Seq<char>) -> bool {
    exists|i: int| 0 <= i < functions.len() && (#[trigger] functions[i]).name == name
}

impl FunctionList {
    #[verifier::type_invariant]
    spec fn inv(self) -> bool {
        distinct_names(self.functions@)
    }

    /// The list without a function.
    pub fn new() -> (r: Self)
        ensures
            r@ == Seq::<FunctionModel>::empty(),
    {
        let r = FunctionList { functions: Vec::new() };
        assert(r@ =~= Seq::<FunctionModel>::empty());
        r
    }

    /// The number of functions.
    pub fn len(&self) -> (r: usize)
        ensures
            r == self@.len(),
            forall|i: int, j: int|
                0 <= i < j < self@.len() ==> (#[trigger] self@[i]).name != (#[trigger] self@[j]).name,
    {
        proof {
            use_type_invariant(self);
            assert forall|i: int, j: int| 0 <= i < j < self@.len() implies (#[trigger] self@[i]).name
                != (#[trigger] self@[j]).name by {
                assert(self@[i].name == self.functions[i].name@);
                assert(self@[j].name == self.functions[j].name@);
            }
        }
        self.functions.len()
    }

    /// The position of the function with the name `name`.
    fn position(&self, name: &str) -> (r: Option<usize>)
        ensures
            r is Some <==> declares(self@, name@),
            r matches Some(i) ==> i < self@.len() && self@[i as int].name == name@,
    {
        let mut i: usize = 0;
        while i < self.functions.len()
            invariant
                i <= self.functions.len(),
                forall|j: int| 0 <= j < i ==> (#[trigger] self@[j]).name != name@,
            decreases self.functions.len() - i,
        {
            assert(self@[i as int].name == self.functions[i as int].name@);
            if *self.functions[i].name.as_str() == *name {
                return Some(i);
            }
            i += 1;
        }
        None
    }

    /// The function with the name `name`, if there is one.
    pub fn get(&self, name: &str) -> (r: Option<&Function>)
        ensures
            r is Some <==> declares(self@, name@),
            r matches Some(f) ==> f@.name == name@ && self@.contains(f@),
    {
        match self.position(name) {
            Some(i) => {
                assert(self@[i as int] == self.functions[i as int]@);
                Some(&self.functions[i])
            },
            None => None,
        }
    }

    /// The function that was added as the `i`th.
    pub fn function_at(&self, i: usize) -> (r: &Function)
        requires
            i < self@.len(),
        ensures
            r@ == self@[i as int],
    {
        &self.functions[i]
    }

    /// Adds `function` at the end, unless the list has a function of that
    /// name already, and says whether it did.
    pub fn add(&mut self, function: Function) -> (r: bool)
        ensures
            r == !declares(old(self)@, function@.name),
            final(self)@ == if r {
                old(self)@.push(function@)
            } else {
                old(self)@
            },
    {
        proof {
            use_type_invariant(&*self);
        }
        if self.position(function.name.as_str()).is_some() {
            return false;
        }
        let ghost before = self.functions@;
        let ghost added = function@;
        assert(!has_name(before, added.name)) by {
            if has_name(before, added.name) {
                let i = choose|i: int| 0 <= i < before.len() && (#[trigger] before[i]).name@
                    == added.name;
                assert(self@[i].name == before[i].name@);
            }
        }
        let mut functions: Vec<Function> = Vec::new();
        std::mem::swap(&mut functions, &mut self.functions);
        functions.push(function);
        proof {
            assert(functions_view(functions@) =~= functions_view(before).push(added));
            assert forall|i: int, j: int| 0 <= i < j < functions.len() implies (
            #[trigger] functions[i]).name@ != (#[trigger] functions[j]).name@ by {
                assert(functions[i] == before[i]);
                if j < before.len() {
                    assert(functions[j] == before[j]);
                }
            }
        }
        self.functions = functions;
        true
    }
}

} // verus!
