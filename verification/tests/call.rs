use fp_bindgen::call::{Action, Call, Reply, Value};
use fp_bindgen::errors::InvocationError;
use fp_bindgen::mem::{from_fat_ptr, to_fat_ptr};
use std::collections::BTreeMap;

/// A guest that keeps count of its allocations.
struct Guest {
    memory: Vec<u8>,
    live: BTreeMap<u32, u32>,
    allocations: usize,
    deallocations: usize,
    function: Option<fn(&mut Guest, &[u64]) -> Option<u64>>,
}

impl Guest {
    fn new(function: Option<fn(&mut Guest, &[u64]) -> Option<u64>>) -> Guest {
        Guest { memory: vec![0; 8], live: BTreeMap::new(), allocations: 0, deallocations: 0, function }
    }

    fn allocate(&mut self, len: u32) -> u32 {
        let ptr = self.memory.len() as u32;
        self.memory.resize(self.memory.len() + len as usize + 1, 0);
        assert!(self.live.insert(ptr, len).is_none());
        self.allocations += 1;
        ptr
    }

    fn deallocate(&mut self, ptr: u32, len: u32) {
        assert_eq!(self.live.remove(&ptr), Some(len), "region was not allocated");
        self.deallocations += 1;
    }

    fn read(&self, ptr: u32, len: u32) -> Option<Vec<u8>> {
        let end = ptr as usize + len as usize;
        if end > self.memory.len() {
            return None;
        }
        Some(self.memory[ptr as usize..end].to_vec())
    }

    fn write(&mut self, ptr: u32, bytes: &[u8]) {
        self.memory[ptr as usize..ptr as usize + bytes.len()].copy_from_slice(bytes);
    }

    /// What a function of the guest does with an argument in memory: it
    /// reads the bytes and gives the region back.
    fn take(&mut self, handle: u64) -> Vec<u8> {
        let (ptr, len) = from_fat_ptr(handle);
        let bytes = self.read(ptr, len).unwrap();
        self.deallocate(ptr, len);
        bytes
    }

    /// What a function of the guest does with a result for memory.
    fn give(&mut self, bytes: &[u8]) -> u64 {
        let ptr = self.allocate(bytes.len() as u32);
        self.write(ptr, bytes);
        to_fat_ptr(ptr, bytes.len() as u32)
    }

    fn perform(&mut self, action: &Action) -> Reply {
        match action {
            Action::Allocate { len } => Reply::Allocated { ptr: self.allocate(*len) },
            Action::Write { ptr, bytes } => {
                self.write(*ptr, bytes);
                Reply::Written
            }
            Action::Invoke { registers } => match self.function {
                None => Reply::NotExported,
                Some(function) => match function(self, registers) {
                    Some(register) => Reply::Returned { register },
                    None => Reply::Failed,
                },
            },
            Action::Read { ptr, len } => match self.read(*ptr, *len) {
                Some(bytes) => Reply::Data(bytes),
                None => Reply::Inaccessible,
            },
            Action::Deallocate { ptr, len } => {
                self.deallocate(*ptr, *len);
                Reply::Deallocated
            }
            Action::Run { .. } | Action::Finish(_) => unreachable!(),
        }
    }
}

fn run(guest: &mut Guest, args: Vec<Value>, result_in_memory: bool) -> (Result<Value, InvocationError>, Call) {
    let (mut call, mut action) = Call::new(args, result_in_memory);
    let mut steps = 0;
    loop {
        if let Action::Finish(result) = action {
            assert!(call.is_finished());
            return (result, call);
        }
        assert!(!call.is_finished());
        let reply = guest.perform(&action);
        let next = call.step(reply);
        call = next.0;
        action = next.1;
        steps += 1;
        assert!(steps < 1000);
    }
}

fn add(_guest: &mut Guest, registers: &[u64]) -> Option<u64> {
    Some(((registers[0] as u32) + (registers[1] as u32)) as u64)
}

fn echo(guest: &mut Guest, registers: &[u64]) -> Option<u64> {
    let bytes = guest.take(registers[0]);
    Some(guest.give(&bytes))
}

fn concat_with_count(guest: &mut Guest, registers: &[u64]) -> Option<u64> {
    let mut first = guest.take(registers[0]);
    let times = registers[1];
    let second = guest.take(registers[2]);
    for _ in 0..times {
        first.extend_from_slice(&second);
    }
    Some(guest.give(&first))
}

fn length(guest: &mut Guest, registers: &[u64]) -> Option<u64> {
    Some(guest.take(registers[0]).len() as u64)
}

fn trap(_guest: &mut Guest, _registers: &[u64]) -> Option<u64> {
    None
}

fn outside_memory(guest: &mut Guest, _registers: &[u64]) -> Option<u64> {
    Some(to_fat_ptr(guest.memory.len() as u32 + 100, 4))
}

#[test]
fn add_bypasses_guest_memory() {
    let mut guest = Guest::new(Some(add));
    let (result, call) = run(&mut guest, vec![Value::Register(2), Value::Register(3)], false);
    assert_eq!(result, Ok(Value::Register(5)));
    assert_eq!(guest.allocations, 0);
    assert_eq!(guest.deallocations, 0);
    assert!(call.allocated().is_empty());
    assert!(call.deallocated().is_empty());
}

#[test]
fn first_action_for_primitives_is_the_invocation() {
    let (call, action) = Call::new(vec![Value::Register(2), Value::Register(3)], false);
    assert_eq!(action, Action::Invoke { registers: vec![2, 3] });
    let (call, action) = call.step(Reply::Returned { register: 5 });
    assert_eq!(action, Action::Finish(Ok(Value::Register(5))));
    assert!(call.is_finished());
}

#[test]
fn string_round_trips_through_guest_memory() {
    let mut guest = Guest::new(Some(echo));
    let (result, call) = run(&mut guest, vec![Value::Bytes(b"hi".to_vec())], true);
    assert_eq!(result, Ok(Value::Bytes(b"hi".to_vec())));
    assert_eq!(guest.allocations, 2);
    assert_eq!(guest.deallocations, 2);
    assert!(guest.live.is_empty());
    assert_eq!(call.allocated().len(), 1);
    assert_eq!(call.deallocated().len(), 1);
}

#[test]
fn steps_of_passing_a_string() {
    let (call, action) = Call::new(vec![Value::Bytes(b"hi".to_vec())], true);
    assert_eq!(action, Action::Allocate { len: 2 });
    let (call, action) = call.step(Reply::Allocated { ptr: 16 });
    assert_eq!(action, Action::Write { ptr: 16, bytes: b"hi".to_vec() });
    let (call, action) = call.step(Reply::Written);
    assert_eq!(action, Action::Invoke { registers: vec![to_fat_ptr(16, 2)] });
    assert_eq!(call.allocated(), &vec![to_fat_ptr(16, 2)]);
    let (call, action) = call.step(Reply::Returned { register: to_fat_ptr(32, 3) });
    assert_eq!(action, Action::Read { ptr: 32, len: 3 });
    let (call, action) = call.step(Reply::Data(b"hi!".to_vec()));
    assert_eq!(action, Action::Deallocate { ptr: 32, len: 3 });
    assert!(!call.is_finished());
    let (call, action) = call.step(Reply::Deallocated);
    assert_eq!(action, Action::Finish(Ok(Value::Bytes(b"hi!".to_vec()))));
    assert!(call.is_finished());
    assert_eq!(call.allocated(), &vec![to_fat_ptr(16, 2)]);
    assert_eq!(call.deallocated(), &vec![to_fat_ptr(32, 3)]);
}

#[test]
fn mixed_arguments_keep_their_order() {
    let mut guest = Guest::new(Some(concat_with_count));
    let args = vec![Value::Bytes(b"ab".to_vec()), Value::Register(3), Value::Bytes(b"c".to_vec())];
    let (result, _) = run(&mut guest, args, true);
    assert_eq!(result, Ok(Value::Bytes(b"abccc".to_vec())));
    assert_eq!(guest.allocations, 3);
    assert_eq!(guest.deallocations, 3);
    assert!(guest.live.is_empty());
}

#[test]
fn result_in_a_register_needs_no_deallocation_by_the_caller() {
    let mut guest = Guest::new(Some(length));
    let (result, call) = run(&mut guest, vec![Value::Bytes(b"hello".to_vec())], false);
    assert_eq!(result, Ok(Value::Register(5)));
    assert_eq!(guest.allocations, 1);
    assert_eq!(guest.deallocations, 1);
    assert!(call.deallocated().is_empty());
}

#[test]
fn empty_value_is_passed_like_any_other() {
    let mut guest = Guest::new(Some(echo));
    let (result, _) = run(&mut guest, vec![Value::Bytes(Vec::new())], true);
    assert_eq!(result, Ok(Value::Bytes(Vec::new())));
    assert_eq!(guest.allocations, guest.deallocations);
    assert!(guest.live.is_empty());
}

#[test]
fn zero_handle_is_read_as_an_empty_value() {
    let (call, _) = Call::new(Vec::new(), true);
    let (call, action) = call.step(Reply::Returned { register: 0 });
    assert_eq!(action, Action::Read { ptr: 0, len: 0 });
    let (call, action) = call.step(Reply::Data(Vec::new()));
    assert_eq!(action, Action::Deallocate { ptr: 0, len: 0 });
    let (_, action) = call.step(Reply::Deallocated);
    assert_eq!(action, Action::Finish(Ok(Value::Bytes(Vec::new()))));
}

#[test]
fn missing_function_gives_the_arguments_back() {
    let mut guest = Guest::new(None);
    let args = vec![Value::Bytes(b"ab".to_vec()), Value::Register(3), Value::Bytes(b"c".to_vec())];
    let (result, call) = run(&mut guest, args, true);
    assert_eq!(result, Err(InvocationError::FunctionNotExported));
    assert_eq!(guest.allocations, 2);
    assert_eq!(guest.deallocations, 2);
    assert!(guest.live.is_empty());
    assert_eq!(call.allocated(), call.deallocated());
}

#[test]
fn missing_function_without_arguments_in_memory() {
    let mut guest = Guest::new(None);
    let (result, _) = run(&mut guest, vec![Value::Register(1)], false);
    assert_eq!(result, Err(InvocationError::FunctionNotExported));
    assert_eq!(guest.allocations, 0);
}

#[test]
fn failure_of_the_engine_ends_the_call() {
    let mut guest = Guest::new(Some(trap));
    let (result, call) = run(&mut guest, vec![Value::Bytes(b"ab".to_vec())], true);
    assert_eq!(result, Err(InvocationError::InstanceFailed));
    assert!(call.deallocated().is_empty());
}

#[test]
fn handle_outside_guest_memory_is_invalid() {
    let mut guest = Guest::new(Some(outside_memory));
    let (result, _) = run(&mut guest, Vec::new(), true);
    assert_eq!(result, Err(InvocationError::InvalidFatPtr));
    assert_eq!(guest.deallocations, 0);
}

#[test]
fn reply_that_was_not_asked_for_ends_the_call() {
    let (call, action) = Call::new(vec![Value::Bytes(b"hi".to_vec())], true);
    assert_eq!(action, Action::Allocate { len: 2 });
    let (call, action) = call.step(Reply::Written);
    assert_eq!(action, Action::Finish(Err(InvocationError::UnexpectedReply)));
    assert!(call.is_finished());
    let (call, action) = call.step(Reply::Allocated { ptr: 8 });
    assert_eq!(action, Action::Finish(Err(InvocationError::UnexpectedReply)));
    assert!(call.is_finished());
}

#[test]
fn data_of_another_length_than_the_handle_says_is_refused() {
    let (call, _) = Call::new(Vec::new(), true);
    let (call, action) = call.step(Reply::Returned { register: to_fat_ptr(8, 4) });
    assert_eq!(action, Action::Read { ptr: 8, len: 4 });
    let (call, action) = call.step(Reply::Data(vec![1, 2, 3]));
    assert_eq!(action, Action::Finish(Err(InvocationError::UnexpectedReply)));
    assert!(call.is_finished());
}

#[test]
fn failure_of_the_engine_at_any_step_ends_the_call() {
    let (call, _) = Call::new(vec![Value::Bytes(b"hi".to_vec())], true);
    let (call, action) = call.step(Reply::Failed);
    assert_eq!(action, Action::Finish(Err(InvocationError::InstanceFailed)));
    assert!(call.is_finished());

    let (call, _) = Call::new(vec![Value::Bytes(b"hi".to_vec())], true);
    let (call, _) = call.step(Reply::Allocated { ptr: 8 });
    let (call, action) = call.step(Reply::Failed);
    assert_eq!(action, Action::Finish(Err(InvocationError::InstanceFailed)));
    assert!(call.is_finished());

    let (call, action) = call.step(Reply::Failed);
    assert_eq!(action, Action::Finish(Err(InvocationError::UnexpectedReply)));
    assert!(call.is_finished());
}
