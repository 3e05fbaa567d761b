use fp_bindgen::call::{Action, Call, Reply, Value};
use fp_bindgen::errors::InvocationError;
use fp_bindgen::exchange::{accepts, passed_registers};
use fp_bindgen::functions::{Passing, Returns};
use fp_bindgen::pending::PendingCalls;
use fp_bindgen::serve::Serve;
use std::collections::BTreeMap;

/// The memory of a guest, with a count of what its allocator was asked.
struct Memory {
    bytes: Vec<u8>,
    live: BTreeMap<u32, u32>,
    allocated: Vec<(u32, u32)>,
    deallocated: Vec<(u32, u32)>,
}

impl Memory {
    fn new() -> Memory {
        Memory { bytes: vec![0; 8], live: BTreeMap::new(), allocated: Vec::new(), deallocated: Vec::new() }
    }

    fn perform(&mut self, action: &Action) -> Reply {
        match action {
            Action::Allocate { len } => {
                let ptr = self.bytes.len() as u32;
                self.bytes.resize(self.bytes.len() + *len as usize + 1, 0);
                assert!(self.live.insert(ptr, *len).is_none());
                self.allocated.push((ptr, *len));
                Reply::Allocated { ptr }
            }
            Action::Write { ptr, bytes } => {
                let at = *ptr as usize;
                self.bytes[at..at + bytes.len()].copy_from_slice(bytes);
                Reply::Written
            }
            Action::Read { ptr, len } => {
                let at = *ptr as usize;
                let end = at + *len as usize;
                if end > self.bytes.len() {
                    Reply::Inaccessible
                } else {
                    Reply::Data(self.bytes[at..end].to_vec())
                }
            }
            Action::Deallocate { ptr, len } => {
                assert_eq!(self.live.remove(ptr), Some(*len), "region was not allocated");
                self.deallocated.push((*ptr, *len));
                Reply::Deallocated
            }
            _ => unreachable!(),
        }
    }

    fn is_balanced(&self) -> bool {
        let mut allocated = self.allocated.clone();
        let mut deallocated = self.deallocated.clone();
        allocated.sort();
        deallocated.sort();
        self.live.is_empty() && allocated == deallocated
    }
}

/// Serves one call on the called side.
fn serve(
    memory: &mut Memory,
    registers: &Vec<u64>,
    passing: &Passing,
    function: &dyn Fn(Vec<Value>) -> Option<Value>,
) -> Reply {
    let passed = passed_registers(registers, &passing.args_in_memory).unwrap();
    let (mut serve, mut action) = Serve::new(passed);
    loop {
        let reply = match action {
            Action::Finish(Ok(Value::Register(register))) => return Reply::Returned { register },
            Action::Finish(_) => return Reply::Failed,
            Action::Run { args } => match function(args) {
                Some(value) => Reply::Computed(value),
                None => Reply::Failed,
            },
            other => memory.perform(&other),
        };
        let next = serve.step(reply);
        serve = next.0;
        action = next.1;
    }
}

/// Makes one call from the calling side, served by `function`.
fn call(
    memory: &mut Memory,
    passing: &Passing,
    args: Vec<Value>,
    function: Option<&dyn Fn(Vec<Value>) -> Option<Value>>,
) -> Result<Value, InvocationError> {
    assert!(accepts(passing, &args));
    let (mut call, mut action) = Call::new(args, passing.result == Returns::Memory);
    loop {
        let reply = match action {
            Action::Finish(result) => return result,
            Action::Invoke { registers } => match function {
                Some(function) => serve(memory, &registers, passing, function),
                None => Reply::NotExported,
            },
            other => memory.perform(&other),
        };
        let next = call.step(reply);
        call = next.0;
        action = next.1;
    }
}

fn passing(args_in_memory: Vec<bool>, result: Returns) -> Passing {
    Passing { args_in_memory, result }
}

#[test]
fn add_allocates_nothing() {
    let mut memory = Memory::new();
    let add = |args: Vec<Value>| match (&args[0], &args[1]) {
        (Value::Register(a), Value::Register(b)) => Some(Value::Register(a + b)),
        _ => None,
    };
    let result = call(
        &mut memory,
        &passing(vec![false, false], Returns::Register),
        vec![Value::Register(2), Value::Register(3)],
        Some(&add),
    );
    assert_eq!(result, Ok(Value::Register(5)));
    assert!(memory.allocated.is_empty());
    assert!(memory.deallocated.is_empty());
}

#[test]
fn string_goes_there_and_back() {
    let mut memory = Memory::new();
    let echo = |mut args: Vec<Value>| args.pop();
    let result = call(
        &mut memory,
        &passing(vec![true], Returns::Memory),
        vec![Value::Bytes(b"hi".to_vec())],
        Some(&echo),
    );
    assert_eq!(result, Ok(Value::Bytes(b"hi".to_vec())));
    assert_eq!(memory.allocated.len(), 2);
    assert_eq!(memory.deallocated.len(), 2);
    assert!(memory.is_balanced());
}

#[test]
fn every_allocation_is_matched_by_one_deallocation() {
    let join = |args: Vec<Value>| {
        let mut all: Vec<u8> = Vec::new();
        for arg in args {
            match arg {
                Value::Bytes(bytes) => all.extend_from_slice(&bytes),
                Value::Register(v) => all.push(v as u8),
            }
        }
        Some(Value::Bytes(all))
    };
    let count = |args: Vec<Value>| Some(Value::Register(args.len() as u64));
    let fail = |_args: Vec<Value>| None;
    let arguments = || {
        vec![
            Value::Bytes(vec![1, 2, 3]),
            Value::Register(4),
            Value::Bytes(Vec::new()),
            Value::Bytes(vec![5; 300]),
            Value::Register(6),
        ]
    };
    let in_memory = vec![true, false, true, true, false];

    let mut memory = Memory::new();
    let result = call(&mut memory, &passing(in_memory.clone(), Returns::Memory), arguments(), Some(&join));
    let mut expected = vec![1, 2, 3, 4];
    expected.extend_from_slice(&[5; 300]);
    expected.push(6);
    assert_eq!(result, Ok(Value::Bytes(expected)));
    assert_eq!(memory.allocated.len(), 4);
    assert!(memory.is_balanced());

    let mut memory = Memory::new();
    let result = call(&mut memory, &passing(in_memory.clone(), Returns::Register), arguments(), Some(&count));
    assert_eq!(result, Ok(Value::Register(5)));
    assert_eq!(memory.allocated.len(), 3);
    assert!(memory.is_balanced());

    let mut memory = Memory::new();
    let result = call(&mut memory, &passing(in_memory.clone(), Returns::Memory), arguments(), None);
    assert_eq!(result, Err(InvocationError::FunctionNotExported));
    assert_eq!(memory.allocated.len(), 3);
    assert!(memory.is_balanced());

    let mut memory = Memory::new();
    let result = call(&mut memory, &passing(in_memory, Returns::Memory), arguments(), Some(&fail));
    assert_eq!(result, Err(InvocationError::InstanceFailed));
    assert_eq!(memory.allocated.len(), memory.deallocated.len());
}

#[test]
fn arguments_must_fit_the_signature() {
    let p = passing(vec![true, false], Returns::Nothing);
    assert!(accepts(&p, &vec![Value::Bytes(vec![1]), Value::Register(2)]));
    assert!(!accepts(&p, &vec![Value::Register(1), Value::Register(2)]));
    assert!(!accepts(&p, &vec![Value::Bytes(vec![1])]));
    assert!(!accepts(&p, &vec![Value::Bytes(vec![1]), Value::Register(2), Value::Register(3)]));
    assert!(accepts(&passing(Vec::new(), Returns::Nothing), &Vec::new()));
}

#[test]
fn asynchronous_call_is_resolved_with_its_payload() {
    let mut memory = Memory::new();
    let mut pending: PendingCalls<std::sync::mpsc::Sender<Vec<u8>>> = PendingCalls::new();

    // The caller issues the call and gets the handle of the pending call.
    let handle: u64 = 0x0000_0040_0000_000c;
    let start = |_args: Vec<Value>| Some(Value::Register(0x0000_0040_0000_000c));
    let issued = call(
        &mut memory,
        &passing(vec![true], Returns::Deferred),
        vec![Value::Bytes(b"request".to_vec())],
        Some(&start),
    );
    assert_eq!(issued, Ok(Value::Register(handle)));
    let (sender, receiver) = std::sync::mpsc::channel();
    assert!(pending.register(handle, sender).is_ok());
    assert!(receiver.try_recv().is_err());

    // Later the other side resolves the call: it calls the resolver with
    // the handle and the serialized result.
    let issued_at = std::time::Instant::now();
    while issued_at.elapsed() < std::time::Duration::from_millis(50) {
        std::hint::spin_loop();
    }
    let payload = b"\x81\xa2ok\xc3".to_vec();
    let delivered = std::cell::RefCell::new(Vec::new());
    let resolver = |args: Vec<Value>| match (&args[0], &args[1]) {
        (Value::Register(handle), Value::Bytes(result)) => {
            delivered.borrow_mut().push((*handle, result.clone()));
            Some(Value::Register(0))
        }
        _ => None,
    };
    let resolved = call(
        &mut memory,
        &passing(vec![false, true], Returns::Nothing),
        vec![Value::Register(handle), Value::Bytes(payload.clone())],
        Some(&resolver),
    );
    assert!(resolved.is_ok());
    for (handle, result) in delivered.into_inner() {
        match pending.resolve(handle) {
            Ok(waiter) => waiter.send(result).unwrap(),
            Err(e) => panic!("{:?}", e),
        }
    }

    assert_eq!(receiver.try_recv(), Ok(payload));
    assert_eq!(pending.len(), 0);
    assert_eq!(pending.resolve(handle).err(), Some(InvocationError::UnknownHandle));
    assert!(memory.is_balanced());
}
