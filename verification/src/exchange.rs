//! How the two sides of a call fit together: what the caller invokes the
//! function with is what the callee is passed, and between them each region
//! of guest memory that carries a value is allocated once and given back
//! once.
use crate::call::{
    fits, memory_handles, values_view, ActionModel, CallModel, PhaseModel, ReplyModel, Value,
    ValueModel,
};
use crate::errors::InvocationError;
use crate::functions::Passing;
use crate::mem::FatPtr;
use crate::serve::{handles, lemma_handles_push, reply_fits, Passed, ServeModel};
use vstd::prelude::*;

verus! {

/// The registers `registers` as the callee gets them, where `in_memory`
/// says of each whether it holds a handle.
pub open spec fn spec_passed(registers: Seq<u64>, in_memory: Seq<bool>) -> Seq<Passed> {
    Seq::new(
        registers.len(),
        |i: int|
            if in_memory[i] {
                Passed::Handle(registers[i])
            } else {
                Passed::Register(registers[i])
            },
    )
}

/// For each argument, whether it travels through guest memory.
pub open spec fn travel(args: Seq<ValueModel>) -> Seq<bool> {
    args.map_values(|v: ValueModel| v is Bytes)
}

/// The registers of a call as the callee gets them, if there is one for
/// each argument of the function.
pub fn passed_registers(registers: &Vec<u64>, in_memory: &Vec<bool>) -> (r: Option<Vec<Passed>>)
    ensures
        r is Some <==> registers.len() == in_memory.len(),
        r matches Some(passed) ==> passed@ == spec_passed(registers@, in_memory@),
{
    if registers.len() != in_memory.len() {
        return None;
    }
    let mut passed: Vec<Passed> = Vec::new();
    let mut i: usize = 0;
    while i < registers.len()
        invariant
            i <= registers.len(),
            registers.len() == in_memory.len(),
            passed.len() == i,
            forall|j: int| 0 <= j < i ==> passed[j] == spec_passed(registers@, in_memory@)[j],
        decreases registers.len() - i,
    {
        if in_memory[i] {
            passed.push(Passed::Handle(registers[i]));
        } else {
            passed.push(Passed::Register(registers[i]));
        }
        i += 1;
    }
    assert(passed@ =~= spec_passed(registers@, in_memory@));
    Some(passed)
}

/// Whether the arguments `args` are what a function with this passing
/// takes: there is one for each argument of the function, in a register
/// or in memory as the function has it.
pub fn accepts(passing: &Passing, args: &Vec<Value>) -> (r: bool)
    ensures
        r == (travel(values_view(args@)) == passing@.args_in_memory),
{
    if args.len() != passing.args_in_memory.len() {
        assert(travel(values_view(args@)).len() != passing@.args_in_memory.len());
        return false;
    }
    let mut i: usize = 0;
    while i < args.len()
        invariant
            i <= args.len(),
            args.len() == passing.args_in_memory.len(),
            forall|j: int|
                0 <= j < i ==> travel(values_view(args@))[j] == passing@.args_in_memory[j],
        decreases args.len() - i,
    {
        let in_memory = match &args[i] {
            Value::Bytes(_) => true,
            Value::Register(_) => false,
        };
        assert(travel(values_view(args@))[i as int] == in_memory);
        if in_memory != passing.args_in_memory[i] {
            return false;
        }
        i += 1;
    }
    assert(travel(values_view(args@)) =~= passing@.args_in_memory);
    true
}

/// The handles that the callee is passed are those of the arguments that
/// the caller put into guest memory.
pub proof fn lemma_passed_handles(args: Seq<ValueModel>, registers: Seq<u64>)
    requires
        registers.len() <= args.len(),
    ensures
        handles(spec_passed(registers, travel(args))) == memory_handles(args, registers),
    decreases registers.len(),
{
    let passed = spec_passed(registers, travel(args));
    if registers.len() == 0 {
        assert(passed =~= Seq::<Passed>::empty());
    } else {
        let init = registers.drop_last();
        lemma_passed_handles(args, init);
        assert(passed =~= spec_passed(init, travel(args)).push(passed.last()));
        lemma_handles_push(spec_passed(init, travel(args)), passed.last());
    }
}

/// The call with the arguments `args` after the engine reported `replies`
/// one after the other, and what the call asked for last.
pub open spec fn call_run(
    args: Seq<ValueModel>,
    result_in_memory: bool,
    replies: Seq<ReplyModel>,
) -> (CallModel, ActionModel)
    decreases replies.len(),
{
    if replies.len() == 0 {
        CallModel::new(args, result_in_memory).pass_on()
    } else {
        call_run(args, result_in_memory, replies.drop_last()).0.step(replies.last())
    }
}

/// The served call that was passed `passed` after the engine reported
/// `replies` one after the other, and what it asked for last.
pub open spec fn serve_run(passed: Seq<Passed>, replies: Seq<ReplyModel>) -> (
    ServeModel,
    ActionModel,
)
    decreases replies.len(),
{
    if replies.len() == 0 {
        ServeModel::new(passed).take_on()
    } else {
        serve_run(passed, replies.drop_last()).0.step(replies.last())
    }
}

/// Whatever the engine reports, a call keeps the memory discipline until it
/// ends, and what it ends with tells what became of its regions.
pub proof fn lemma_call_run(
    args: Seq<ValueModel>,
    result_in_memory: bool,
    replies: Seq<ReplyModel>,
)
    requires
        fits(args),
    ensures
        ({
            let (call, action) = call_run(args, result_in_memory, replies);
            &&& call.args == args
            &&& call.result_in_memory == result_in_memory
            &&& call.phase is Nothing || call.disciplined()
            &&& action matches ActionModel::Invoke { registers } ==> registers == call.registers
                && call.phase is Returned
            &&& action matches ActionModel::Finish(Ok(ValueModel::Register(_)))
                ==> !result_in_memory && call.handed_over() && call.deallocated.len() == 0
            &&& action matches ActionModel::Finish(Ok(ValueModel::Bytes(_))) ==> result_in_memory
                && call.handed_over() && call.deallocated.len() == 1
            &&& action == ActionModel::Finish(Err(InvocationError::FunctionNotExported))
                ==> call.deallocated == call.allocated
        }),
    decreases replies.len(),
{
    if replies.len() == 0 {
        crate::call::lemma_pass_on(CallModel::new(args, result_in_memory));
    } else {
        lemma_call_run(args, result_in_memory, replies.drop_last());
        let before = call_run(args, result_in_memory, replies.drop_last()).0;
        if before.disciplined() {
            crate::call::lemma_step_disciplined(before, replies.last());
        }
    }
}

/// Whatever the engine reports, a served call keeps the memory discipline
/// until it ends, and when it ends with a result it has given back the
/// region of every handle that it was passed and has allocated at most the
/// region of the result.
pub proof fn lemma_serve_run(passed: Seq<Passed>, replies: Seq<ReplyModel>)
    requires
        forall|i: int| 0 <= i < replies.len() ==> reply_fits(replies[i]),
    ensures
        ({
            let (serve, action) = serve_run(passed, replies);
            &&& serve.passed == passed
            &&& serve.phase is Nothing || serve.disciplined()
            &&& action matches ActionModel::Finish(Ok(result)) ==> result is Register
                && serve.deallocated == handles(passed) && (serve.allocated
                == Seq::<FatPtr>::empty() || serve.allocated == seq![result->Register_0])
        }),
    decreases replies.len(),
{
    if replies.len() == 0 {
        crate::serve::lemma_new_disciplined(passed);
        assert(passed.take(0) =~= Seq::<Passed>::empty());
        crate::serve::lemma_take_on(ServeModel::new(passed));
    } else {
        let init = replies.drop_last();
        assert forall|i: int| 0 <= i < init.len() implies reply_fits(init[i]) by {
            assert(init[i] == replies[i]);
        }
        lemma_serve_run(passed, init);
        let before = serve_run(passed, init).0;
        if before.disciplined() {
            crate::serve::lemma_step_disciplined(before, replies.last());
        }
    }
}

/// What holds of a call from the time when the function has returned
/// `returned`: its registers and its regions are those with which it
/// invoked the function, and it deals with no other handle than the one
/// that was returned.
pub open spec fn returned_to(call: CallModel, invoked: CallModel, returned: u64) -> bool {
    &&& call.registers == invoked.registers
    &&& call.allocated == invoked.allocated
    &&& call.result_in_memory == invoked.result_in_memory
    &&& match call.phase {
        PhaseModel::Data { fat } => fat == returned && call.deallocated.len() == 0,
        PhaseModel::ResultDeallocated { fat, data } => fat == returned
            && call.deallocated.len() == 0,
        PhaseModel::Nothing => true,
        _ => false,
    }
}

/// After the function has returned, the call gives back the region of the
/// result, if the result is in memory, and no other region.
pub proof fn lemma_call_after_return(
    args: Seq<ValueModel>,
    result_in_memory: bool,
    replies: Seq<ReplyModel>,
    k: int,
    returned: u64,
    j: int,
)
    requires
        fits(args),
        0 <= k < j <= replies.len(),
        call_run(args, result_in_memory, replies.take(k)).1 is Invoke,
        replies[k] == (ReplyModel::Returned { register: returned }),
    ensures
        ({
            let invoked = call_run(args, result_in_memory, replies.take(k)).0;
            let (call, action) = call_run(args, result_in_memory, replies.take(j));
            &&& returned_to(call, invoked, returned)
            &&& action matches ActionModel::Finish(Ok(ValueModel::Register(v))) ==> v == returned
                && call.deallocated == Seq::<FatPtr>::empty()
            &&& action matches ActionModel::Finish(Ok(ValueModel::Bytes(_))) ==> call.deallocated
                == seq![returned]
        }),
    decreases j - k,
{
    let invoked = call_run(args, result_in_memory, replies.take(k)).0;
    assert(replies.take(j).drop_last() =~= replies.take(j - 1));
    assert(replies.take(j).last() == replies[j - 1]);
    if j == k + 1 {
        lemma_call_run(args, result_in_memory, replies.take(k));
    } else {
        lemma_call_after_return(args, result_in_memory, replies, k, returned, j - 1);
        let before = call_run(args, result_in_memory, replies.take(j - 1)).0;
        if before.phase is ResultDeallocated {
            assert(before.deallocated =~= Seq::<FatPtr>::empty());
            assert(Seq::<FatPtr>::empty().push(returned) =~= seq![returned]);
        }
    }
}

/// Every region of guest memory that carries an argument or the result of
/// a call is allocated once and given back once by the end of the call.
/// Take a call that invokes the function after some replies of the engine
/// and ends with a result, and a served call that is passed the registers
/// of that invocation and ends with the register that the caller gets as
/// the function's return, the result travelling as the caller expects it.
/// Whatever else the engine reports to the two, the regions that the
/// caller allocated are those that the callee gave back, and the region
/// that the callee allocated, if any, is the one that the caller gave back.
pub proof fn lemma_every_region_given_back_once(
    args: Seq<ValueModel>,
    result_in_memory: bool,
    replies: Seq<ReplyModel>,
    k: int,
    returned: u64,
    served: Seq<ReplyModel>,
)
    requires
        fits(args),
        forall|i: int| 0 <= i < served.len() ==> reply_fits(served[i]),
        0 <= k < replies.len(),
        call_run(args, result_in_memory, replies.take(k)).1 is Invoke,
        replies[k] == (ReplyModel::Returned { register: returned }),
        call_run(args, result_in_memory, replies).1 matches ActionModel::Finish(Ok(_)),
        ({
            let registers = call_run(args, result_in_memory, replies.take(k)).1->Invoke_registers;
            let (serve, action) = serve_run(spec_passed(registers, travel(args)), served);
            &&& action == ActionModel::Finish(Ok(ValueModel::Register(returned)))
            &&& result_in_memory == (serve.allocated.len() > 0)
        }),
    ensures
        ({
            let registers = call_run(args, result_in_memory, replies.take(k)).1->Invoke_registers;
            let call = call_run(args, result_in_memory, replies).0;
            let serve = serve_run(spec_passed(registers, travel(args)), served).0;
            &&& call.allocated == serve.deallocated
            &&& serve.allocated == call.deallocated
            &&& call.allocated + serve.allocated == serve.deallocated + call.deallocated
        }),
{
    let registers = call_run(args, result_in_memory, replies.take(k)).1->Invoke_registers;
    let passed = spec_passed(registers, travel(args));
    lemma_call_run(args, result_in_memory, replies.take(k));
    lemma_call_run(args, result_in_memory, replies);
    assert(replies.take(replies.len() as int) =~= replies);
    lemma_call_after_return(args, result_in_memory, replies, k, returned, replies.len() as int);
    lemma_serve_run(passed, served);
    lemma_passed_handles(args, registers);
}

} // verus!
