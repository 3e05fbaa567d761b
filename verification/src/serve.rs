//! The called side of a call across the boundary. The callee takes each
//! argument that came through guest memory out of it and gives the region
//! back, runs the function, and passes a result that does not fit a
//! register through guest memory.
use crate::call::{values_view, Action, ActionModel, Reply, ReplyModel, Value, ValueModel};
use crate::errors::InvocationError;
use crate::mem::{from_fat_ptr, spec_fat_ptr, spec_length, spec_offset, to_fat_ptr, FatPtr};
use vstd::prelude::*;

verus! {

/// A register as the callee gets it, with what the signature of the
/// function says of it.
#[derive(Debug, Clone, Copy, PartialEq, Eq, Structural)]
pub enum Passed {
    /// The register holds the argument itself.
    Register(u64),
    /// The register holds the handle of the argument.
    Handle(FatPtr),
}

/// The handles among what was passed, in order.
pub open spec fn handles(passed: Seq<Passed>) -> Seq<FatPtr>
    decreases passed.len(),
{
    if passed.len() == 0 {
        Seq::empty()
    } else {
        match passed.last() {
            Passed::Handle(fat) => handles(passed.drop_last()).push(fat),
            Passed::Register(_) => handles(passed.drop_last()),
        }
    }
}

/// What a served call waits for.
pub ghost enum ServingModel {
    /// The bytes of the next argument.
    Data,
    /// The region of the next argument to be taken back, its bytes being
    /// `data`.
    ArgumentDeallocated { data: Seq<u8> },
    /// The region of the argument at `index` to be taken back unread,
    /// because an argument before it could not be read.
    Discarded { index: nat },
    /// The result of the function.
    Computed,
    /// The region for the result `bytes`.
    Allocated { bytes: Seq<u8> },
    /// The result to be in guest memory, under the handle `fat`.
    Written { fat: FatPtr },
    /// Nothing: the call has ended.
    Nothing,
}

/// The mathematical value of a [`Serve`].
pub ghost struct ServeModel {
    /// What the function was called with.
    pub passed: Seq<Passed>,
    /// The arguments that were taken so far, until the function is run
    /// with them.
    pub args: Seq<ValueModel>,
    /// How many of the registers were dealt with.
    pub taken: nat,
    pub phase: ServingModel,
    /// The handles of the regions that the callee had allocated, in order.
    pub allocated: Seq<FatPtr>,
    /// The handles of the regions that the callee had deallocated, in
    /// order.
    pub deallocated: Seq<FatPtr>,
}

impl ServeModel {
    /// The served call before anything was done.
    pub open spec fn new(passed: Seq<Passed>) -> ServeModel {
        ServeModel {
            passed,
            args: Seq::empty(),
            taken: 0,
            phase: ServingModel::Nothing,
            allocated: Seq::empty(),
            deallocated: Seq::empty(),
        }
    }

    /// The call ended, with `result`.
    pub open spec fn finish(self, result: Result<ValueModel, InvocationError>) -> (
        ServeModel,
        ActionModel,
    ) {
        (ServeModel { phase: ServingModel::Nothing, ..self }, ActionModel::Finish(result))
    }

    /// Goes on with the registers that were not dealt with yet: an
    /// argument in a register is taken as it is; for the first handle, its
    /// bytes are asked for; when all arguments are taken, the function is
    /// run with them.
    pub open spec fn take_on(self) -> (ServeModel, ActionModel)
        decreases self.passed.len() - self.taken,
    {
        if self.taken >= self.passed.len() {
            (
                ServeModel { phase: ServingModel::Computed, args: Seq::empty(), ..self },
                ActionModel::Run { args: self.args },
            )
        } else {
            match self.passed[self.taken as int] {
                Passed::Register(v) => ServeModel {
                    args: self.args.push(ValueModel::Register(v)),
                    taken: self.taken + 1,
                    ..self
                }.take_on(),
                Passed::Handle(fat) => (
                    ServeModel { phase: ServingModel::Data, ..self },
                    ActionModel::Read {
                        ptr: spec_offset(fat) as u32,
                        len: spec_length(fat) as u32,
                    },
                ),
            }
        }
    }

    /// Gives back, unread, the first region from `index` on, or ends the
    /// call if there is none: an argument could not be read.
    pub open spec fn discard_on(self, index: nat) -> (ServeModel, ActionModel)
        decreases self.passed.len() - index,
    {
        if index >= self.passed.len() {
            self.finish(Err(InvocationError::InvalidFatPtr))
        } else {
            match self.passed[index as int] {
                Passed::Register(_) => self.discard_on(index + 1),
                Passed::Handle(fat) => (
                    ServeModel { phase: ServingModel::Discarded { index }, ..self },
                    ActionModel::Deallocate {
                        ptr: spec_offset(fat) as u32,
                        len: spec_length(fat) as u32,
                    },
                ),
            }
        }
    }

    /// The handle that the register at `index` holds.
    pub open spec fn handle_at(self, index: nat) -> FatPtr {
        match self.passed[index as int] {
            Passed::Handle(fat) => fat,
            Passed::Register(v) => v,
        }
    }

    /// What the served call does when the engine reports `reply`, and what
    /// it is then.
    pub open spec fn step(self, reply: ReplyModel) -> (ServeModel, ActionModel) {
        match (self.phase, reply) {
            (ServingModel::Nothing, _) => self.finish(Err(InvocationError::UnexpectedReply)),
            (_, ReplyModel::Failed) => self.finish(Err(InvocationError::InstanceFailed)),
            (ServingModel::Data, ReplyModel::Data(data)) => {
                let fat = self.handle_at(self.taken);
                if data.len() == spec_length(fat) {
                    (
                        ServeModel { phase: ServingModel::ArgumentDeallocated { data }, ..self },
                        ActionModel::Deallocate {
                            ptr: spec_offset(fat) as u32,
                            len: spec_length(fat) as u32,
                        },
                    )
                } else {
                    self.finish(Err(InvocationError::UnexpectedReply))
                }
            },
            (ServingModel::Data, ReplyModel::Inaccessible) => ServeModel {
                args: Seq::empty(),
                phase: ServingModel::Nothing,
                ..self
            }.discard_on(self.taken + 1),
            (ServingModel::ArgumentDeallocated { data }, ReplyModel::Deallocated) => ServeModel {
                args: self.args.push(ValueModel::Bytes(data)),
                taken: self.taken + 1,
                deallocated: self.deallocated.push(self.handle_at(self.taken)),
                phase: ServingModel::Nothing,
                ..self
            }.take_on(),
            (ServingModel::Discarded { index }, ReplyModel::Deallocated) => ServeModel {
                deallocated: self.deallocated.push(self.handle_at(index)),
                phase: ServingModel::Nothing,
                ..self
            }.discard_on(index + 1),
            (ServingModel::Computed, ReplyModel::Computed(ValueModel::Register(v))) => self.finish(
                Ok(ValueModel::Register(v)),
            ),
            (ServingModel::Computed, ReplyModel::Computed(ValueModel::Bytes(bytes))) => (
                ServeModel { phase: ServingModel::Allocated { bytes }, ..self },
                ActionModel::Allocate { len: bytes.len() as u32 },
            ),
            (ServingModel::Allocated { bytes }, ReplyModel::Allocated { ptr }) => {
                let fat = spec_fat_ptr(ptr, bytes.len() as u32) as u64;
                (
                    ServeModel {
                        phase: ServingModel::Written { fat },
                        allocated: self.allocated.push(fat),
                        ..self
                    },
                    ActionModel::Write { ptr, bytes },
                )
            },
            (ServingModel::Written { fat }, ReplyModel::Written) => self.finish(
                Ok(ValueModel::Register(fat)),
            ),
            _ => self.finish(Err(InvocationError::UnexpectedReply)),
        }
    }

    /// What holds of a served call at any time: it waits for an argument
    /// only where a handle was passed, and the bytes that it holds are as
    /// many as a handle can say.
    pub open spec fn wf(self) -> bool {
        &&& self.taken <= self.passed.len()
        &&& self.phase is Data || self.phase is ArgumentDeallocated ==> self.taken
            < self.passed.len() && self.passed[self.taken as int] is Handle
        &&& self.phase matches ServingModel::ArgumentDeallocated { data } ==> data.len()
            == spec_length(self.handle_at(self.taken))
        &&& self.phase matches ServingModel::Discarded { index } ==> self.taken < index
            < self.passed.len() && self.passed[index as int] is Handle
        &&& self.phase matches ServingModel::Allocated { bytes } ==> bytes.len() <= u32::MAX
        &&& self.phase is Discarded ==> self.args.len() == 0
    }
}

impl ServeModel {
    /// The handles of the arguments that were passed, but for the one at
    /// which the callee stopped taking them.
    pub open spec fn all_but_unread(self) -> Seq<FatPtr> {
        handles(self.passed.take(self.taken as int)) + handles(
            self.passed.skip(self.taken as int + 1),
        )
    }

    /// The memory discipline of a served call that has not ended. The
    /// callee has given back the regions of the arguments that it took,
    /// each once and in order, and, after an argument that it could not
    /// read, those of the arguments behind that one which it dealt with.
    /// It has allocated no region but that of the result.
    pub open spec fn disciplined(self) -> bool {
        &&& self.wf()
        &&& !(self.phase is Nothing)
        &&& self.phase is Computed || self.phase is Allocated || self.phase is Written
            ==> self.taken == self.passed.len()
        &&& self.deallocated == match self.phase {
            ServingModel::Discarded { index } => handles(self.passed.take(self.taken as int))
                + handles(self.passed.subrange(self.taken as int + 1, index as int)),
            _ => handles(self.passed.take(self.taken as int)),
        }
        &&& self.allocated == match self.phase {
            ServingModel::Written { fat } => seq![fat],
            _ => Seq::empty(),
        }
    }
}

/// The handles of a sequence with one more register.
pub proof fn lemma_handles_push(passed: Seq<Passed>, next: Passed)
    ensures
        handles(passed.push(next)) == match next {
            Passed::Handle(fat) => handles(passed).push(fat),
            Passed::Register(_) => handles(passed),
        },
{
    assert(passed.push(next).drop_last() =~= passed);
}

/// Taking the arguments on keeps the discipline, and ends in asking for
/// the bytes of an argument or in running the function.
pub proof fn lemma_take_on(serve: ServeModel)
    requires
        serve.taken <= serve.passed.len(),
        serve.deallocated == handles(serve.passed.take(serve.taken as int)),
        serve.allocated == Seq::<FatPtr>::empty(),
    ensures
        serve.take_on().0.disciplined(),
        serve.take_on().0.passed == serve.passed,
        serve.take_on().1 is Read || serve.take_on().1 is Run,
    decreases serve.passed.len() - serve.taken,
{
    if serve.taken < serve.passed.len() {
        match serve.passed[serve.taken as int] {
            Passed::Register(v) => {
                let next = ServeModel {
                    args: serve.args.push(ValueModel::Register(v)),
                    taken: serve.taken + 1,
                    ..serve
                };
                assert(serve.passed.take(serve.taken as int + 1) =~= serve.passed.take(
                    serve.taken as int,
                ).push(Passed::Register(v)));
                lemma_handles_push(serve.passed.take(serve.taken as int), Passed::Register(v));
                lemma_take_on(next);
            },
            Passed::Handle(_) => {},
        }
    }
}

/// Discarding the arguments behind one that could not be read keeps the
/// discipline, and ends with every region given back but that one.
pub proof fn lemma_discard_on(serve: ServeModel, index: nat)
    requires
        serve.taken < index <= serve.passed.len(),
        serve.args.len() == 0,
        serve.allocated == Seq::<FatPtr>::empty(),
        serve.deallocated == handles(serve.passed.take(serve.taken as int)) + handles(
            serve.passed.subrange(serve.taken as int + 1, index as int),
        ),
    ensures
        serve.discard_on(index).1 is Finish || serve.discard_on(index).1 is Deallocate,
        serve.discard_on(index).0.passed == serve.passed,
        serve.discard_on(index).1 is Deallocate ==> serve.discard_on(index).0.disciplined(),
        serve.discard_on(index).1 is Finish ==> serve.discard_on(index).1 == ActionModel::Finish(
            Err(InvocationError::InvalidFatPtr),
        ) && serve.discard_on(index).0.phase is Nothing && serve.discard_on(index).0.deallocated
            == serve.all_but_unread() && serve.discard_on(index).0.taken == serve.taken
            && serve.discard_on(index).0.passed == serve.passed,
    decreases serve.passed.len() - index,
{
    if index >= serve.passed.len() {
        assert(serve.passed.subrange(serve.taken as int + 1, index as int) =~= serve.passed.skip(
            serve.taken as int + 1,
        ));
    } else {
        match serve.passed[index as int] {
            Passed::Register(v) => {
                assert(serve.passed.subrange(serve.taken as int + 1, index as int + 1)
                    =~= serve.passed.subrange(serve.taken as int + 1, index as int).push(
                    Passed::Register(v),
                ));
                lemma_handles_push(
                    serve.passed.subrange(serve.taken as int + 1, index as int),
                    Passed::Register(v),
                );
                lemma_discard_on(serve, index + 1);
            },
            Passed::Handle(_) => {},
        }
    }
}

/// A served call starts in keeping with the discipline.
pub proof fn lemma_new_disciplined(passed: Seq<Passed>)
    ensures
        ServeModel::new(passed).take_on().0.disciplined(),
{
    assert(passed.take(0) =~= Seq::<Passed>::empty());
    lemma_take_on(ServeModel::new(passed));
}

/// The callee gives back every region that it was passed, once. While the
/// call goes on it keeps the discipline. When it ends with a result, the
/// callee has given back the region of every handle among its registers,
/// in order, and has allocated the region of the result, if the result is
/// in memory, and no other. When it ends because an argument could not be
/// read, it has given back the region of every other handle.
pub proof fn lemma_step_disciplined(serve: ServeModel, reply: ReplyModel)
    requires
        serve.disciplined(),
        reply_fits(reply),
    ensures
        ({
            let (next, action) = serve.step(reply);
            &&& next.wf()
            &&& next.passed == serve.passed
            &&& next.phase is Nothing <==> action is Finish
            &&& !(action is Finish) ==> next.disciplined()
            &&& action matches ActionModel::Finish(Ok(result)) ==> result is Register
                && next.deallocated == handles(next.passed) && next.allocated == if serve.phase
                is Written {
                seq![result->Register_0]
            } else {
                Seq::empty()
            }
            &&& action == ActionModel::Finish(Err(InvocationError::InvalidFatPtr))
                ==> next.deallocated == next.all_but_unread()
        }),
{
    let (next, action) = serve.step(reply);
    let taken = serve.taken as int;
    match (serve.phase, reply) {
        (ServingModel::Data, ReplyModel::Inaccessible) => {
            let start = ServeModel {
                args: Seq::empty(),
                phase: ServingModel::Nothing,
                ..serve
            };
            assert(serve.passed.subrange(taken + 1, taken + 1) =~= Seq::<Passed>::empty());
            assert(start.deallocated =~= handles(serve.passed.take(taken)) + handles(
                serve.passed.subrange(taken + 1, taken + 1),
            ));
            lemma_discard_on(start, serve.taken + 1);
        },
        (ServingModel::ArgumentDeallocated { data }, ReplyModel::Deallocated) => {
            let start = ServeModel {
                args: serve.args.push(ValueModel::Bytes(data)),
                taken: serve.taken + 1,
                deallocated: serve.deallocated.push(serve.handle_at(serve.taken)),
                phase: ServingModel::Nothing,
                ..serve
            };
            assert(serve.passed.take(taken + 1) =~= serve.passed.take(taken).push(
                serve.passed[taken],
            ));
            lemma_handles_push(serve.passed.take(taken), serve.passed[taken]);
            lemma_take_on(start);
        },
        (ServingModel::Discarded { index }, ReplyModel::Deallocated) => {
            let start = ServeModel {
                deallocated: serve.deallocated.push(serve.handle_at(index)),
                phase: ServingModel::Nothing,
                ..serve
            };
            assert(serve.passed.subrange(taken + 1, index as int + 1) =~= serve.passed.subrange(
                taken + 1,
                index as int,
            ).push(serve.passed[index as int]));
            lemma_handles_push(
                serve.passed.subrange(taken + 1, index as int),
                serve.passed[index as int],
            );
            assert(start.deallocated =~= handles(serve.passed.take(taken)) + handles(
                serve.passed.subrange(taken + 1, index as int + 1),
            ));
            lemma_discard_on(start, index + 1);
        },
        (ServingModel::Computed, _) => {
            assert(serve.passed.take(taken) =~= serve.passed);
        },
        (ServingModel::Written { fat }, _) => {
            assert(serve.passed.take(taken) =~= serve.passed);
        },
        _ => {},
    }
}

/// Whether the reply can be taken: a result for guest memory is short
/// enough for a handle to hold its length.
pub open spec fn reply_fits(reply: ReplyModel) -> bool {
    reply matches ReplyModel::Computed(ValueModel::Bytes(bytes)) ==> bytes.len() <= u32::MAX
}

/// What a served call waits for.
#[derive(Debug)]
enum Serving {
    Data,
    ArgumentDeallocated { data: Vec<u8> },
    Discarded { index: usize },
    Computed,
    Allocated { bytes: Vec<u8> },
    Written { fat: FatPtr },
    Nothing,
}

impl View for Serving {
    type V = ServingModel;

    closed spec fn view(&self) -> ServingModel {
        match self {
            Serving::Data => ServingModel::Data,
            Serving::ArgumentDeallocated { data } => ServingModel::ArgumentDeallocated {
                data: data@,
            },
            Serving::Discarded { index } => ServingModel::Discarded { index: *index as nat },
            Serving::Computed => ServingModel::Computed,
            Serving::Allocated { bytes } => ServingModel::Allocated { bytes: bytes@ },
            Serving::Written { fat } => ServingModel::Written { fat: *fat },
            Serving::Nothing => ServingModel::Nothing,
        }
    }
}

/// A call that is served on this side of the boundary, as far as it has
/// come.
#[derive(Debug)]
pub struct Serve {
    passed: Vec<Passed>,
    args: Vec<Value>,
    taken: usize,
    phase: Serving,
    allocated: Vec<FatPtr>,
    deallocated: Vec<FatPtr>,
}

impl View for Serve {
    type V = ServeModel;

    closed spec fn view(&self) -> ServeModel {
        ServeModel {
            passed: self.passed@,
            args: values_view(self.args@),
            taken: self.taken as nat,
            phase: self.phase@,
            allocated: self.allocated@,
            deallocated: self.deallocated@,
        }
    }
}

impl Serve {
    #[verifier::type_invariant]
    spec fn inv(self) -> bool {
        self@.wf()
    }

    /// Goes on with the registers that were not dealt with yet.
    fn take_on(
        passed: Vec<Passed>,
        args: Vec<Value>,
        taken: usize,
        allocated: Vec<FatPtr>,
        deallocated: Vec<FatPtr>,
    ) -> (r: (Serve, Action))
        requires
            taken <= passed.len(),
        ensures
            (r.0@, r.1@) == (ServeModel {
                passed: passed@,
                args: values_view(args@),
                taken: taken as nat,
                phase: ServingModel::Nothing,
                allocated: allocated@,
                deallocated: deallocated@,
            }).take_on(),
    {
        let ghost start = ServeModel {
            passed: passed@,
            args: values_view(args@),
            taken: taken as nat,
            phase: ServingModel::Nothing,
            allocated: allocated@,
            deallocated: deallocated@,
        };
        let mut values = args;
        let mut k = taken;
        while k < passed.len()
            invariant
                k <= passed.len(),
                start == (ServeModel {
                    passed: passed@,
                    args: values_view(args@),
                    taken: taken as nat,
                    phase: ServingModel::Nothing,
                    allocated: allocated@,
                    deallocated: deallocated@,
                }),
                (ServeModel { args: values_view(values@), taken: k as nat, ..start }).take_on()
                    == start.take_on(),
            decreases passed.len() - k,
        {
            match passed[k] {
                Passed::Register(v) => {
                    let ghost before = values_view(values@);
                    values.push(Value::Register(v));
                    assert(values_view(values@) =~= before.push(ValueModel::Register(v)));
                    k += 1;
                },
                Passed::Handle(fat) => {
                    let (ptr, len) = from_fat_ptr(fat);
                    let serve = Serve {
                        passed,
                        args: values,
                        taken: k,
                        phase: Serving::Data,
                        allocated,
                        deallocated,
                    };
                    return (serve, Action::Read { ptr, len });
                },
            }
        }
        let serve = Serve {
            passed,
            args: Vec::new(),
            taken: k,
            phase: Serving::Computed,
            allocated,
            deallocated,
        };
        assert(serve@.args =~= Seq::<ValueModel>::empty());
        (serve, Action::Run { args: values })
    }

    /// Gives back, unread, the first region from `index` on, or ends the
    /// call if there is none.
    fn discard_on(
        passed: Vec<Passed>,
        taken: usize,
        allocated: Vec<FatPtr>,
        deallocated: Vec<FatPtr>,
        index: usize,
    ) -> (r: (Serve, Action))
        requires
            taken <= passed.len(),
            taken < index,
        ensures
            (r.0@, r.1@) == (ServeModel {
                passed: passed@,
                args: Seq::empty(),
                taken: taken as nat,
                phase: ServingModel::Nothing,
                allocated: allocated@,
                deallocated: deallocated@,
            }).discard_on(index as nat),
    {
        let ghost start = ServeModel {
            passed: passed@,
            args: Seq::empty(),
            taken: taken as nat,
            phase: ServingModel::Nothing,
            allocated: allocated@,
            deallocated: deallocated@,
        };
        let mut k = index;
        while k < passed.len()
            invariant
                taken <= passed.len(),
                taken < k,
                start == (ServeModel {
                    passed: passed@,
                    args: Seq::empty(),
                    taken: taken as nat,
                    phase: ServingModel::Nothing,
                    allocated: allocated@,
                    deallocated: deallocated@,
                }),
                start.discard_on(k as nat) == start.discard_on(index as nat),
            decreases passed.len() - k,
        {
            match passed[k] {
                Passed::Register(_) => {
                    k += 1;
                },
                Passed::Handle(fat) => {
                    let (ptr, len) = from_fat_ptr(fat);
                    let serve = Serve {
                        passed,
                        args: Vec::new(),
                        taken,
                        phase: Serving::Discarded { index: k },
                        allocated,
                        deallocated,
                    };
                    assert(serve@.args =~= Seq::<ValueModel>::empty());
                    return (serve, Action::Deallocate { ptr, len });
                },
            }
        }
        let serve = Serve {
            passed,
            args: Vec::new(),
            taken,
            phase: Serving::Nothing,
            allocated,
            deallocated,
        };
        assert(serve@.args =~= Seq::<ValueModel>::empty());
        (serve, Action::Finish(Err(InvocationError::InvalidFatPtr)))
    }

    /// Ends the call.
    fn finish(
        passed: Vec<Passed>,
        args: Vec<Value>,
        taken: usize,
        allocated: Vec<FatPtr>,
        deallocated: Vec<FatPtr>,
        result: Result<Value, InvocationError>,
    ) -> (r: (Serve, Action))
        requires
            taken <= passed.len(),
        ensures
            r.0@ == (ServeModel {
                passed: passed@,
                args: values_view(args@),
                taken: taken as nat,
                phase: ServingModel::Nothing,
                allocated: allocated@,
                deallocated: deallocated@,
            }),
            r.1 == Action::Finish(result),
    {
        let serve = Serve { passed, args, taken, phase: Serving::Nothing, allocated, deallocated };
        (serve, Action::Finish(result))
    }

    /// Begins to serve a call that came with the registers `passed`, and
    /// says what to do first.
    pub fn new(passed: Vec<Passed>) -> (r: (Serve, Action))
        ensures
            (r.0@, r.1@) == ServeModel::new(passed@).take_on(),
    {
        let args: Vec<Value> = Vec::new();
        assert(values_view(args@) =~= Seq::<ValueModel>::empty());
        Serve::take_on(passed, args, 0, Vec::new(), Vec::new())
    }

    /// Whether the call has ended.
    pub fn is_finished(&self) -> (r: bool)
        ensures
            r == (self@.phase is Nothing),
    {
        match self.phase {
            Serving::Nothing => true,
            _ => false,
        }
    }

    /// The handles of the regions that the callee has allocated so far.
    pub fn allocated(&self) -> (r: &Vec<FatPtr>)
        ensures
            r@ == self@.allocated,
    {
        &self.allocated
    }

    /// The handles of the regions that the callee has deallocated so far.
    pub fn deallocated(&self) -> (r: &Vec<FatPtr>)
        ensures
            r@ == self@.deallocated,
    {
        &self.deallocated
    }

    /// Takes what the engine reports of the action that it was asked for
    /// last, and says what to do next. A result for guest memory must be
    /// short enough for a handle to hold its length.
    pub fn step(self, reply: Reply) -> (r: (Serve, Action))
        requires
            reply_fits(reply@),
        ensures
            (r.0@, r.1@) == self@.step(reply@),
    {
        proof {
            use_type_invariant(&self);
        }
        let ghost before = self@;
        let Serve { passed, args, taken, phase, allocated, deallocated } = self;
        let mut args = args;
        let mut allocated = allocated;
        let mut deallocated = deallocated;
        match (phase, reply) {
            (Serving::Nothing, _) => Serve::finish(
                passed,
                args,
                taken,
                allocated,
                deallocated,
                Err(InvocationError::UnexpectedReply),
            ),
            (_, Reply::Failed) => Serve::finish(
                passed,
                args,
                taken,
                allocated,
                deallocated,
                Err(InvocationError::InstanceFailed),
            ),
            (Serving::Data, Reply::Data(data)) => {
                match passed[taken] {
                    Passed::Handle(fat) => {
                        let (ptr, len) = from_fat_ptr(fat);
                        if data.len() == len as usize {
                            let serve = Serve {
                                passed,
                                args,
                                taken,
                                phase: Serving::ArgumentDeallocated { data },
                                allocated,
                                deallocated,
                            };
                            (serve, Action::Deallocate { ptr, len })
                        } else {
                            Serve::finish(
                                passed,
                                args,
                                taken,
                                allocated,
                                deallocated,
                                Err(InvocationError::UnexpectedReply),
                            )
                        }
                    },
                    Passed::Register(_) => Serve::finish(
                        passed,
                        args,
                        taken,
                        allocated,
                        deallocated,
                        Err(InvocationError::UnexpectedReply),
                    ),
                }
            },
            (Serving::Data, Reply::Inaccessible) => {
                assert(taken < passed.len());
                let next = taken + 1;
                Serve::discard_on(passed, taken, allocated, deallocated, next)
            },
            (Serving::ArgumentDeallocated { data }, Reply::Deallocated) => {
                let fat = match passed[taken] {
                    Passed::Handle(fat) => fat,
                    Passed::Register(v) => v,
                };
                deallocated.push(fat);
                let ghost values = values_view(args@);
                let ghost bytes = data@;
                args.push(Value::Bytes(data));
                assert(values_view(args@) =~= values.push(ValueModel::Bytes(bytes)));
                assert(taken < passed.len());
                let next = taken + 1;
                Serve::take_on(passed, args, next, allocated, deallocated)
            },
            (Serving::Discarded { index }, Reply::Deallocated) => {
                let fat = match passed[index] {
                    Passed::Handle(fat) => fat,
                    Passed::Register(v) => v,
                };
                deallocated.push(fat);
                assert(before.args =~= Seq::<ValueModel>::empty()) by {
                    assert(before.wf());
                }
                assert(index < passed.len());
                let next = index + 1;
                Serve::discard_on(passed, taken, allocated, deallocated, next)
            },
            (Serving::Computed, Reply::Computed(Value::Register(v))) => Serve::finish(
                passed,
                args,
                taken,
                allocated,
                deallocated,
                Ok(Value::Register(v)),
            ),
            (Serving::Computed, Reply::Computed(Value::Bytes(bytes))) => {
                let len = bytes.len() as u32;
                let serve = Serve {
                    passed,
                    args,
                    taken,
                    phase: Serving::Allocated { bytes },
                    allocated,
                    deallocated,
                };
                (serve, Action::Allocate { len })
            },
            (Serving::Allocated { bytes }, Reply::Allocated { ptr }) => {
                let fat = to_fat_ptr(ptr, bytes.len() as u32);
                allocated.push(fat);
                let serve = Serve {
                    passed,
                    args,
                    taken,
                    phase: Serving::Written { fat },
                    allocated,
                    deallocated,
                };
                (serve, Action::Write { ptr, bytes })
            },
            (Serving::Written { fat }, Reply::Written) => Serve::finish(
                passed,
                args,
                taken,
                allocated,
                deallocated,
                Ok(Value::Register(fat)),
            ),
            _ => Serve::finish(
                passed,
                args,
                taken,
                allocated,
                deallocated,
                Err(InvocationError::UnexpectedReply),
            ),
        }
    }
}

} // verus!
