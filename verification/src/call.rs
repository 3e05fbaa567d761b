//! The calling side of a call across the boundary. The caller passes each
//! argument that does not fit a register through guest memory, invokes the
//! function, and takes a result that does not fit a register out of guest
//! memory again. What is done to the guest is done by the engine that runs
//! it: the call says what to do next, and is told what came of it.
use crate::errors::InvocationError;
use crate::mem::{from_fat_ptr, spec_fat_ptr, spec_length, spec_offset, to_fat_ptr, FatPtr};
use vstd::prelude::*;

verus! {

/// A value as it crosses the boundary.
#[derive(Debug, Clone, PartialEq, Eq)]
pub enum Value {
    /// A primitive, which travels in a register.
    Register(u64),
    /// The serialized form of any other value, which travels through guest
    /// memory.
    Bytes(Vec<u8>),
}

/// The mathematical value of a [`Value`].
pub ghost enum ValueModel {
    Register(u64),
    Bytes(Seq<u8>),
}

impl View for Value {
    type V = ValueModel;

    open spec fn view(&self) -> ValueModel {
        match self {
            Value::Register(v) => ValueModel::Register(*v),
            Value::Bytes(b) => ValueModel::Bytes(b@),
        }
    }
}

/// The views of a sequence of values.
pub open spec fn values_view(s: Seq<Value>) -> Seq<ValueModel> {
    s.map_values(|v: Value| v@)
}

/// What the engine is asked to do.
#[derive(Debug, PartialEq, Eq)]
pub enum Action {
    /// Ask the guest's allocator for a region of `len` bytes.
    Allocate { len: u32 },
    /// Copy `bytes` into guest memory at `ptr`.
    Write { ptr: u32, bytes: Vec<u8> },
    /// Call the function with these registers as its arguments.
    Invoke { registers: Vec<u64> },
    /// Copy `len` bytes out of guest memory at `ptr`.
    Read { ptr: u32, len: u32 },
    /// Ask the guest's deallocator to take back the region of `len` bytes at
    /// `ptr`.
    Deallocate { ptr: u32, len: u32 },
    /// Run the function that was called, on these arguments.
    Run { args: Vec<Value> },
    /// Nothing more: the call has ended, with this result.
    Finish(Result<Value, InvocationError>),
}

/// The mathematical value of an [`Action`].
pub ghost enum ActionModel {
    Allocate { len: u32 },
    Write { ptr: u32, bytes: Seq<u8> },
    Invoke { registers: Seq<u64> },
    Read { ptr: u32, len: u32 },
    Deallocate { ptr: u32, len: u32 },
    Run { args: Seq<ValueModel> },
    Finish(Result<ValueModel, InvocationError>),
}

impl View for Action {
    type V = ActionModel;

    open spec fn view(&self) -> ActionModel {
        match self {
            Action::Allocate { len } => ActionModel::Allocate { len: *len },
            Action::Write { ptr, bytes } => ActionModel::Write { ptr: *ptr, bytes: bytes@ },
            Action::Invoke { registers } => ActionModel::Invoke { registers: registers@ },
            Action::Read { ptr, len } => ActionModel::Read { ptr: *ptr, len: *len },
            Action::Deallocate { ptr, len } => ActionModel::Deallocate { ptr: *ptr, len: *len },
            Action::Run { args } => ActionModel::Run { args: values_view(args@) },
            Action::Finish(Ok(v)) => ActionModel::Finish(Ok(v@)),
            Action::Finish(Err(e)) => ActionModel::Finish(Err(*e)),
        }
    }
}

/// What the engine reports of the action that it was asked for.
#[derive(Debug, Clone, PartialEq, Eq)]
pub enum Reply {
    /// The region asked for starts at `ptr`.
    Allocated { ptr: u32 },
    /// The bytes are in guest memory.
    Written,
    /// The function returned this register.
    Returned { register: u64 },
    /// The instance has no function of that name.
    NotExported,
    /// The engine failed at what it was asked for.
    Failed,
    /// The bytes that were read.
    Data(Vec<u8>),
    /// The region that was to be read is not within guest memory.
    Inaccessible,
    /// The region was taken back.
    Deallocated,
    /// The function that was run gave this result.
    Computed(Value),
}

/// The mathematical value of a [`Reply`].
pub ghost enum ReplyModel {
    Allocated { ptr: u32 },
    Written,
    Returned { register: u64 },
    NotExported,
    Failed,
    Data(Seq<u8>),
    Inaccessible,
    Deallocated,
    Computed(ValueModel),
}

impl View for Reply {
    type V = ReplyModel;

    open spec fn view(&self) -> ReplyModel {
        match self {
            Reply::Allocated { ptr } => ReplyModel::Allocated { ptr: *ptr },
            Reply::Written => ReplyModel::Written,
            Reply::Returned { register } => ReplyModel::Returned { register: *register },
            Reply::NotExported => ReplyModel::NotExported,
            Reply::Failed => ReplyModel::Failed,
            Reply::Data(bytes) => ReplyModel::Data(bytes@),
            Reply::Inaccessible => ReplyModel::Inaccessible,
            Reply::Deallocated => ReplyModel::Deallocated,
            Reply::Computed(value) => ReplyModel::Computed(value@),
        }
    }
}

/// What a call waits for.
pub ghost enum PhaseModel {
    /// The region for the next argument.
    Allocated,
    /// The next argument to be in guest memory, at `ptr`.
    Written { ptr: u32 },
    /// The function to return.
    Returned,
    /// The bytes of the result, which `fat` refers to.
    Data { fat: FatPtr },
    /// The region of the result to be taken back.
    ResultDeallocated { fat: FatPtr, data: Seq<u8> },
    /// The region of an argument to be taken back, because the function
    /// that was to take it does not exist: the one at `index` among the
    /// regions that the call allocated.
    ArgumentDeallocated { index: nat },
    /// Nothing: the call has ended.
    Nothing,
}

/// The mathematical value of a [`Call`].
pub ghost struct CallModel {
    /// The arguments of the call.
    pub args: Seq<ValueModel>,
    /// Whether the result travels through guest memory.
    pub result_in_memory: bool,
    /// The registers of the arguments that were passed so far.
    pub registers: Seq<u64>,
    pub phase: PhaseModel,
    /// The handles of the regions that the call had allocated, in order.
    pub allocated: Seq<FatPtr>,
    /// The handles of the regions that the call had deallocated, in order.
    pub deallocated: Seq<FatPtr>,
}

/// Whether each argument that travels through memory is short enough for
/// a handle to hold its length.
pub open spec fn fits(args: Seq<ValueModel>) -> bool {
    forall|i: int|
        0 <= i < args.len() ==> (#[trigger] args[i] matches ValueModel::Bytes(b) ==> b.len()
            <= u32::MAX)
}

/// The handle of the region at `ptr` that holds the argument `arg`.
pub open spec fn handle_of(ptr: u32, arg: ValueModel) -> FatPtr {
    match arg {
        ValueModel::Bytes(b) => spec_fat_ptr(ptr, b.len() as u32) as u64,
        ValueModel::Register(v) => v,
    }
}

impl CallModel {
    /// The call before anything was done.
    pub open spec fn new(args: Seq<ValueModel>, result_in_memory: bool) -> CallModel {
        CallModel {
            args,
            result_in_memory,
            registers: Seq::empty(),
            phase: PhaseModel::Nothing,
            allocated: Seq::empty(),
            deallocated: Seq::empty(),
        }
    }

    /// The call ended, with `result`.
    pub open spec fn finish(self, result: Result<ValueModel, InvocationError>) -> (
        CallModel,
        ActionModel,
    ) {
        (CallModel { phase: PhaseModel::Nothing, ..self }, ActionModel::Finish(result))
    }

    /// Goes on with the arguments that were not passed yet: one that fits a
    /// register is passed as it is; for the first one that does not, a
    /// region is asked for; when all are passed, the function is invoked.
    pub open spec fn pass_on(self) -> (CallModel, ActionModel)
        decreases self.args.len() - self.registers.len(),
    {
        if self.registers.len() >= self.args.len() {
            (
                CallModel { phase: PhaseModel::Returned, ..self },
                ActionModel::Invoke { registers: self.registers },
            )
        } else {
            match self.args[self.registers.len() as int] {
                ValueModel::Register(v) => CallModel {
                    registers: self.registers.push(v),
                    ..self
                }.pass_on(),
                ValueModel::Bytes(b) => (
                    CallModel { phase: PhaseModel::Allocated, ..self },
                    ActionModel::Allocate { len: b.len() as u32 },
                ),
            }
        }
    }

    /// Takes back the region at `index` among those that the call
    /// allocated, or ends the call if there is none: the function that was
    /// to take the arguments does not exist.
    pub open spec fn release(self, index: nat) -> (CallModel, ActionModel) {
        if index < self.allocated.len() {
            (
                CallModel { phase: PhaseModel::ArgumentDeallocated { index }, ..self },
                ActionModel::Deallocate {
                    ptr: spec_offset(self.allocated[index as int]) as u32,
                    len: spec_length(self.allocated[index as int]) as u32,
                },
            )
        } else {
            self.finish(Err(InvocationError::FunctionNotExported))
        }
    }

    /// What the call does when the engine reports `reply`, and what it is
    /// then.
    pub open spec fn step(self, reply: ReplyModel) -> (CallModel, ActionModel) {
        match (self.phase, reply) {
            (PhaseModel::Nothing, _) => self.finish(Err(InvocationError::UnexpectedReply)),
            (_, ReplyModel::Failed) => self.finish(Err(InvocationError::InstanceFailed)),
            (PhaseModel::Allocated, ReplyModel::Allocated { ptr }) => {
                let arg = self.args[self.registers.len() as int];
                (
                    CallModel {
                        phase: PhaseModel::Written { ptr },
                        allocated: self.allocated.push(handle_of(ptr, arg)),
                        ..self
                    },
                    ActionModel::Write { ptr, bytes: arg->Bytes_0 },
                )
            },
            (PhaseModel::Written { ptr }, ReplyModel::Written) => {
                let arg = self.args[self.registers.len() as int];
                CallModel {
                    registers: self.registers.push(handle_of(ptr, arg)),
                    phase: PhaseModel::Nothing,
                    ..self
                }.pass_on()
            },
            (PhaseModel::Returned, ReplyModel::Returned { register }) => {
                if self.result_in_memory {
                    (
                        CallModel { phase: PhaseModel::Data { fat: register }, ..self },
                        ActionModel::Read {
                            ptr: spec_offset(register) as u32,
                            len: spec_length(register) as u32,
                        },
                    )
                } else {
                    self.finish(Ok(ValueModel::Register(register)))
                }
            },
            (PhaseModel::Returned, ReplyModel::NotExported) => self.release(0),
            (PhaseModel::Data { fat }, ReplyModel::Data(data)) => {
                if data.len() == spec_length(fat) {
                    (
                        CallModel { phase: PhaseModel::ResultDeallocated { fat, data }, ..self },
                        ActionModel::Deallocate {
                            ptr: spec_offset(fat) as u32,
                            len: spec_length(fat) as u32,
                        },
                    )
                } else {
                    self.finish(Err(InvocationError::UnexpectedReply))
                }
            },
            (PhaseModel::Data { fat }, ReplyModel::Inaccessible) => self.finish(
                Err(InvocationError::InvalidFatPtr),
            ),
            (PhaseModel::ResultDeallocated { fat, data }, ReplyModel::Deallocated) => CallModel {
                deallocated: self.deallocated.push(fat),
                ..self
            }.finish(Ok(ValueModel::Bytes(data))),
            (PhaseModel::ArgumentDeallocated { index }, ReplyModel::Deallocated) => CallModel {
                deallocated: self.deallocated.push(self.allocated[index as int]),
                ..self
            }.release(index + 1),
            _ => self.finish(Err(InvocationError::UnexpectedReply)),
        }
    }
}

/// The registers that hold the handle of an argument in memory, in order:
/// of the registers `registers` of the first arguments among `args`, those
/// whose argument does not travel in the register itself.
pub open spec fn memory_handles(args: Seq<ValueModel>, registers: Seq<u64>) -> Seq<FatPtr>
    decreases registers.len(),
{
    if registers.len() == 0 || registers.len() > args.len() {
        Seq::empty()
    } else if args[registers.len() - 1] is Bytes {
        memory_handles(args, registers.drop_last()).push(registers.last())
    } else {
        memory_handles(args, registers.drop_last())
    }
}

impl CallModel {
    /// What holds of a call at any time: no argument is too long for a
    /// handle, the call waits for a region only for an argument that
    /// travels through memory, it takes back only regions that it
    /// allocated, and the result that it holds is as long as its handle
    /// says.
    pub open spec fn wf(self) -> bool {
        &&& fits(self.args)
        &&& self.registers.len() <= self.args.len()
        &&& self.phase is Allocated || self.phase is Written ==> self.registers.len()
            < self.args.len() && self.args[self.registers.len() as int] is Bytes
        &&& self.phase matches PhaseModel::ArgumentDeallocated { index } ==> index
            < self.allocated.len()
        &&& self.phase matches PhaseModel::ResultDeallocated { fat, data } ==> data.len()
            == spec_length(fat)
    }

    /// Whether the function has received, in its registers, the handle of
    /// every region that the call allocated, and with it the duty to give
    /// the region back.
    pub open spec fn handed_over(self) -> bool {
        self.registers.len() == self.args.len() && self.allocated == memory_handles(
            self.args,
            self.registers,
        )
    }

    /// The memory discipline of a call that has not ended. The regions that
    /// it allocated are those of the arguments in memory that it passed,
    /// and of the one that it is passing. It has given back no region,
    /// unless the function to call does not exist: then it gives back its
    /// regions one by one.
    pub open spec fn disciplined(self) -> bool {
        &&& self.wf()
        &&& !(self.phase is Nothing)
        &&& self.allocated == match self.phase {
            PhaseModel::Written { ptr } => memory_handles(self.args, self.registers).push(
                handle_of(ptr, self.args[self.registers.len() as int]),
            ),
            _ => memory_handles(self.args, self.registers),
        }
        &&& self.deallocated == match self.phase {
            PhaseModel::ArgumentDeallocated { index } => self.allocated.take(index as int),
            _ => Seq::empty(),
        }
        &&& self.phase is Returned || self.phase is Data || self.phase is ResultDeallocated
            || self.phase is ArgumentDeallocated ==> self.registers.len() == self.args.len()
        &&& self.phase is Data || self.phase is ResultDeallocated ==> self.result_in_memory
    }
}

/// Passing on the arguments keeps the discipline, and ends in asking for a
/// region or in invoking the function with a register for each argument.
pub proof fn lemma_pass_on(call: CallModel)
    requires
        fits(call.args),
        call.registers.len() <= call.args.len(),
        call.allocated == memory_handles(call.args, call.registers),
        call.deallocated == Seq::<FatPtr>::empty(),
    ensures
        call.pass_on().0.disciplined(),
        call.pass_on().1 is Allocate || call.pass_on().1 is Invoke,
        call.pass_on().0.args == call.args,
        call.pass_on().0.result_in_memory == call.result_in_memory,
        call.pass_on().0.allocated == call.allocated,
        call.pass_on().1 matches ActionModel::Invoke { registers } ==> registers
            == call.pass_on().0.registers && call.pass_on().0.phase is Returned
            && call.pass_on().0.handed_over(),
    decreases call.args.len() - call.registers.len(),
{
    if call.registers.len() < call.args.len() {
        match call.args[call.registers.len() as int] {
            ValueModel::Register(v) => {
                let next = CallModel { registers: call.registers.push(v), ..call };
                assert(next.registers.drop_last() =~= call.registers);
                lemma_pass_on(next);
            },
            ValueModel::Bytes(b) => {},
        }
    }
}

/// A call starts in keeping with the discipline.
pub proof fn lemma_new_disciplined(args: Seq<ValueModel>, result_in_memory: bool)
    requires
        fits(args),
    ensures
        CallModel::new(args, result_in_memory).pass_on().0.disciplined(),
{
    lemma_pass_on(CallModel::new(args, result_in_memory));
}

/// Every region that a call allocates is given back exactly once. While
/// the call goes on it keeps the discipline. When it ends with a result,
/// the function has received the handle of every region that the call
/// allocated, and the call has given back the region of the result and no
/// other. When it ends because the function does not exist, the call has
/// given back every region that it allocated, once, and nothing else.
pub proof fn lemma_step_disciplined(call: CallModel, reply: ReplyModel)
    requires
        call.disciplined(),
    ensures
        ({
            let (next, action) = call.step(reply);
            &&& next.wf()
            &&& next.args == call.args
            &&& next.result_in_memory == call.result_in_memory
            &&& next.phase is Nothing <==> action is Finish
            &&& !(action is Finish) ==> next.disciplined()
            &&& action matches ActionModel::Invoke { registers } ==> registers == next.registers
                && next.phase is Returned
            &&& action matches ActionModel::Finish(Ok(ValueModel::Register(_)))
                ==> !call.result_in_memory && next.handed_over() && next.deallocated
                == Seq::<FatPtr>::empty()
            &&& action matches ActionModel::Finish(Ok(ValueModel::Bytes(data)))
                ==> call.result_in_memory && next.handed_over() && call.phase
                is ResultDeallocated && next.deallocated
                == seq![call.phase->ResultDeallocated_fat] && data.len() == spec_length(
                call.phase->ResultDeallocated_fat,
            )
            &&& action == ActionModel::Finish(Err(InvocationError::FunctionNotExported))
                ==> next.deallocated == next.allocated
        }),
{
    let (next, action) = call.step(reply);
    match (call.phase, reply) {
        (PhaseModel::Written { ptr }, ReplyModel::Written) => {
            let arg = call.args[call.registers.len() as int];
            let passed = CallModel {
                registers: call.registers.push(handle_of(ptr, arg)),
                phase: PhaseModel::Nothing,
                ..call
            };
            assert(passed.registers.drop_last() =~= call.registers);
            lemma_pass_on(passed);
        },
        (PhaseModel::ArgumentDeallocated { index }, ReplyModel::Deallocated) => {
            assert(call.allocated.take(index as int).push(call.allocated[index as int])
                =~= call.allocated.take(index as int + 1));
            if index + 1 >= call.allocated.len() {
                assert(call.allocated.take(index as int + 1) =~= call.allocated);
            }
        },
        (PhaseModel::Returned, ReplyModel::NotExported) => {
            assert(call.allocated.take(0) =~= Seq::<FatPtr>::empty());
            if call.allocated.len() == 0 {
                assert(call.allocated =~= Seq::<FatPtr>::empty());
            }
        },
        (PhaseModel::ResultDeallocated { fat, data }, ReplyModel::Deallocated) => {
            assert(Seq::<FatPtr>::empty().push(fat) =~= seq![fat]);
        },
        _ => {},
    }
}

/// Primitives bypass guest memory: a call whose arguments and result all
/// travel in registers begins by invoking the function with the arguments
/// as its registers, ends when the function returns, with what it
/// returned, and allocates and deallocates nothing.
pub proof fn lemma_registers_bypass_memory(args: Seq<ValueModel>, returned: u64)
    requires
        forall|i: int| 0 <= i < args.len() ==> args[i] is Register,
    ensures
        ({
            let (invoked, first) = CallModel::new(args, false).pass_on();
            let (ended, last) = invoked.step(ReplyModel::Returned { register: returned });
            &&& first == ActionModel::Invoke {
                registers: Seq::new(args.len(), |i: int| args[i]->Register_0),
            }
            &&& last == ActionModel::Finish(Ok(ValueModel::Register(returned)))
            &&& ended.allocated == Seq::<FatPtr>::empty()
            &&& ended.deallocated == Seq::<FatPtr>::empty()
        }),
{
    let start = CallModel::new(args, false);
    lemma_all_registers(start);
    assert(start.pass_on().0.registers =~= Seq::new(args.len(), |i: int| args[i]->Register_0));
}

/// Where every argument that is left travels in a register, passing on
/// the arguments invokes the function at once.
proof fn lemma_all_registers(call: CallModel)
    requires
        call.registers.len() <= call.args.len(),
        forall|i: int| call.registers.len() <= i < call.args.len() ==> call.args[i] is Register,
    ensures
        call.pass_on().0 == (CallModel {
            phase: PhaseModel::Returned,
            registers: call.pass_on().0.registers,
            ..call
        }),
        call.pass_on().1 == (ActionModel::Invoke { registers: call.pass_on().0.registers }),
        call.pass_on().0.registers.len() == call.args.len(),
        forall|i: int|
            0 <= i < call.registers.len() ==> call.pass_on().0.registers[i] == call.registers[i],
        forall|i: int|
            call.registers.len() <= i < call.args.len() ==> call.pass_on().0.registers[i]
                == call.args[i]->Register_0,
    decreases call.args.len() - call.registers.len(),
{
    if call.registers.len() < call.args.len() {
        let v = call.args[call.registers.len() as int]->Register_0;
        let next = CallModel { registers: call.registers.push(v), ..call };
        lemma_all_registers(next);
        assert(call.pass_on() == next.pass_on());
        let end = call.pass_on().0.registers;
        assert forall|i: int| 0 <= i < call.registers.len() implies end[i]
            == call.registers[i] by {
            assert(next.registers[i] == call.registers[i]);
        }
        assert forall|i: int| call.registers.len() <= i < call.args.len() implies end[i]
            == call.args[i]->Register_0 by {
            if i == call.registers.len() {
                assert(next.registers[i] == v);
            }
        }
    }
}

/// What a call waits for.
#[derive(Debug)]
enum Phase {
    Allocated,
    Written { ptr: u32 },
    Returned,
    Data { fat: FatPtr },
    ResultDeallocated { fat: FatPtr, data: Vec<u8> },
    ArgumentDeallocated { index: usize },
    Nothing,
}

impl View for Phase {
    type V = PhaseModel;

    closed spec fn view(&self) -> PhaseModel {
        match self {
            Phase::Allocated => PhaseModel::Allocated,
            Phase::Written { ptr } => PhaseModel::Written { ptr: *ptr },
            Phase::Returned => PhaseModel::Returned,
            Phase::Data { fat } => PhaseModel::Data { fat: *fat },
            Phase::ResultDeallocated { fat, data } => PhaseModel::ResultDeallocated {
                fat: *fat,
                data: data@,
            },
            Phase::ArgumentDeallocated { index } => PhaseModel::ArgumentDeallocated {
                index: *index as nat,
            },
            Phase::Nothing => PhaseModel::Nothing,
        }
    }
}

/// A call of a function on the other side of the boundary, as far as it has
/// come.
#[derive(Debug)]
pub struct Call {
    args: Vec<Value>,
    result_in_memory: bool,
    registers: Vec<u64>,
    phase: Phase,
    allocated: Vec<FatPtr>,
    deallocated: Vec<FatPtr>,
}

impl View for Call {
    type V = CallModel;

    closed spec fn view(&self) -> CallModel {
        CallModel {
            args: values_view(self.args@),
            result_in_memory: self.result_in_memory,
            registers: self.registers@,
            phase: self.phase@,
            allocated: self.allocated@,
            deallocated: self.deallocated@,
        }
    }
}

impl Call {
    #[verifier::type_invariant]
    spec fn inv(self) -> bool {
        self@.wf()
    }

    /// Passes on the arguments that were not passed yet.
    fn pass_on(
        args: Vec<Value>,
        result_in_memory: bool,
        registers: Vec<u64>,
        allocated: Vec<FatPtr>,
        deallocated: Vec<FatPtr>,
    ) -> (r: (Call, Action))
        requires
            fits(values_view(args@)),
            registers.len() <= args.len(),
        ensures
            (r.0@, r.1@) == (CallModel {
                args: values_view(args@),
                result_in_memory,
                registers: registers@,
                phase: PhaseModel::Nothing,
                allocated: allocated@,
                deallocated: deallocated@,
            }).pass_on(),
    {
        let ghost start = CallModel {
            args: values_view(args@),
            result_in_memory,
            registers: registers@,
            phase: PhaseModel::Nothing,
            allocated: allocated@,
            deallocated: deallocated@,
        };
        let mut passed = registers;
        while passed.len() < args.len()
            invariant
                fits(values_view(args@)),
                passed.len() <= args.len(),
                start == (CallModel {
                    args: values_view(args@),
                    result_in_memory,
                    registers: registers@,
                    phase: PhaseModel::Nothing,
                    allocated: allocated@,
                    deallocated: deallocated@,
                }),
                (CallModel { registers: passed@, ..start }).pass_on() == start.pass_on(),
            decreases args.len() - passed.len(),
        {
            let ghost now = CallModel { registers: passed@, ..start };
            let k = passed.len();
            assert(now.args[k as int] == args[k as int]@);
            match &args[k] {
                Value::Register(v) => {
                    passed.push(*v);
                },
                Value::Bytes(b) => {
                    let len = b.len() as u32;
                    let call = Call {
                        args,
                        result_in_memory,
                        registers: passed,
                        phase: Phase::Allocated,
                        allocated,
                        deallocated,
                    };
                    return (call, Action::Allocate { len });
                },
            }
        }
        let invoked = passed.clone();
        let call = Call {
            args,
            result_in_memory,
            registers: passed,
            phase: Phase::Returned,
            allocated,
            deallocated,
        };
        (call, Action::Invoke { registers: invoked })
    }

    /// Takes back the region at `index` among those that the call
    /// allocated, or ends the call if there is none.
    fn release(
        args: Vec<Value>,
        result_in_memory: bool,
        registers: Vec<u64>,
        allocated: Vec<FatPtr>,
        deallocated: Vec<FatPtr>,
        index: usize,
    ) -> (r: (Call, Action))
        requires
            fits(values_view(args@)),
            registers.len() <= args.len(),
        ensures
            (r.0@, r.1@) == (CallModel {
                args: values_view(args@),
                result_in_memory,
                registers: registers@,
                phase: PhaseModel::Nothing,
                allocated: allocated@,
                deallocated: deallocated@,
            }).release(index as nat),
    {
        if index < allocated.len() {
            let (ptr, len) = from_fat_ptr(allocated[index]);
            let call = Call {
                args,
                result_in_memory,
                registers,
                phase: Phase::ArgumentDeallocated { index },
                allocated,
                deallocated,
            };
            (call, Action::Deallocate { ptr, len })
        } else {
            let call = Call {
                args,
                result_in_memory,
                registers,
                phase: Phase::Nothing,
                allocated,
                deallocated,
            };
            (call, Action::Finish(Err(InvocationError::FunctionNotExported)))
        }
    }

    /// Begins a call with the arguments `args`, whose result travels through
    /// guest memory if `result_in_memory`, and says what to do first.
    pub fn new(args: Vec<Value>, result_in_memory: bool) -> (r: (Call, Action))
        requires
            fits(values_view(args@)),
        ensures
            (r.0@, r.1@) == CallModel::new(values_view(args@), result_in_memory).pass_on(),
    {
        Call::pass_on(args, result_in_memory, Vec::new(), Vec::new(), Vec::new())
    }

    /// Whether the call has ended.
    pub fn is_finished(&self) -> (r: bool)
        ensures
            r == (self@.phase is Nothing),
    {
        match self.phase {
            Phase::Nothing => true,
            _ => false,
        }
    }

    /// The handles of the regions that the call has allocated so far.
    pub fn allocated(&self) -> (r: &Vec<FatPtr>)
        ensures
            r@ == self@.allocated,
    {
        &self.allocated
    }

    /// The handles of the regions that the call has deallocated so far.
    pub fn deallocated(&self) -> (r: &Vec<FatPtr>)
        ensures
            r@ == self@.deallocated,
    {
        &self.deallocated
    }

    /// Takes what the engine reports of the action that it was asked for
    /// last, and says what to do next.
    pub fn step(self, reply: Reply) -> (r: (Call, Action))
        ensures
            (r.0@, r.1@) == self@.step(reply@),
    {
        proof {
            use_type_invariant(&self);
        }
        let ghost before = self@;
        let Call { args, result_in_memory, registers, phase, allocated, deallocated } = self;
        let mut registers = registers;
        let mut allocated = allocated;
        let mut deallocated = deallocated;
        match (phase, reply) {
            (Phase::Nothing, _) => {
                let call = Call {
                    args,
                    result_in_memory,
                    registers,
                    phase: Phase::Nothing,
                    allocated,
                    deallocated,
                };
                (call, Action::Finish(Err(InvocationError::UnexpectedReply)))
            },
            (_, Reply::Failed) => {
                let call = Call {
                    args,
                    result_in_memory,
                    registers,
                    phase: Phase::Nothing,
                    allocated,
                    deallocated,
                };
                (call, Action::Finish(Err(InvocationError::InstanceFailed)))
            },
            (Phase::Allocated, Reply::Allocated { ptr }) => {
                let k = registers.len();
                assert(before.args[k as int] == args[k as int]@);
                match &args[k] {
                    Value::Bytes(b) => {
                        let bytes = b.clone();
                        allocated.push(to_fat_ptr(ptr, b.len() as u32));
                        let call = Call {
                            args,
                            result_in_memory,
                            registers,
                            phase: Phase::Written { ptr },
                            allocated,
                            deallocated,
                        };
                        (call, Action::Write { ptr, bytes })
                    },
                    Value::Register(_) => {
                        let call = Call {
                            args,
                            result_in_memory,
                            registers,
                            phase: Phase::Nothing,
                            allocated,
                            deallocated,
                        };
                        (call, Action::Finish(Err(InvocationError::UnexpectedReply)))
                    },
                }
            },
            (Phase::Written { ptr }, Reply::Written) => {
                let k = registers.len();
                assert(before.args[k as int] == args[k as int]@);
                let handle = match &args[k] {
                    Value::Bytes(b) => to_fat_ptr(ptr, b.len() as u32),
                    Value::Register(v) => *v,
                };
                registers.push(handle);
                Call::pass_on(args, result_in_memory, registers, allocated, deallocated)
            },
            (Phase::Returned, Reply::Returned { register }) => {
                if result_in_memory {
                    let (ptr, len) = from_fat_ptr(register);
                    let call = Call {
                        args,
                        result_in_memory,
                        registers,
                        phase: Phase::Data { fat: register },
                        allocated,
                        deallocated,
                    };
                    (call, Action::Read { ptr, len })
                } else {
                    let call = Call {
                        args,
                        result_in_memory,
                        registers,
                        phase: Phase::Nothing,
                        allocated,
                        deallocated,
                    };
                    (call, Action::Finish(Ok(Value::Register(register))))
                }
            },
            (Phase::Returned, Reply::NotExported) => {
                Call::release(args, result_in_memory, registers, allocated, deallocated, 0)
            },
            (Phase::Data { fat }, Reply::Data(data)) => {
                let (ptr, len) = from_fat_ptr(fat);
                if data.len() == len as usize {
                    let call = Call {
                        args,
                        result_in_memory,
                        registers,
                        phase: Phase::ResultDeallocated { fat, data },
                        allocated,
                        deallocated,
                    };
                    (call, Action::Deallocate { ptr, len })
                } else {
                    let call = Call {
                        args,
                        result_in_memory,
                        registers,
                        phase: Phase::Nothing,
                        allocated,
                        deallocated,
                    };
                    (call, Action::Finish(Err(InvocationError::UnexpectedReply)))
                }
            },
            (Phase::Data { fat }, Reply::Inaccessible) => {
                let call = Call {
                    args,
                    result_in_memory,
                    registers,
                    phase: Phase::Nothing,
                    allocated,
                    deallocated,
                };
                (call, Action::Finish(Err(InvocationError::InvalidFatPtr)))
            },
            (Phase::ResultDeallocated { fat, data }, Reply::Deallocated) => {
                deallocated.push(fat);
                let call = Call {
                    args,
                    result_in_memory,
                    registers,
                    phase: Phase::Nothing,
                    allocated,
                    deallocated,
                };
                (call, Action::Finish(Ok(Value::Bytes(data))))
            },
            (Phase::ArgumentDeallocated { index }, Reply::Deallocated) => {
                assert(index < allocated.len());
                deallocated.push(allocated[index]);
                let next = index + 1;
                Call::release(args, result_in_memory, registers, allocated, deallocated, next)
            },
            _ => {
                let call = Call {
                    args,
                    result_in_memory,
                    registers,
                    phase: Phase::Nothing,
                    allocated,
                    deallocated,
                };
                (call, Action::Finish(Err(InvocationError::UnexpectedReply)))
            },
        }
    }
}

} // verus!
