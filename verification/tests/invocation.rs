use std::collections::HashMap;
use std::rc::Rc;

use wasm_store::error::Error;
use wasm_store::func::{FuncBody, HostFuncId, ModuleId};
use wasm_store::invoke::{Invocation, StackLimits};
use wasm_store::store::Store;
use wasm_store::types::{FunctionType, ValueType};
use wasm_store::value::RuntimeValue;

const LIMITS: StackLimits = StackLimits { value_stack: 10, frame_stack: 20 };

fn signature() -> FunctionType {
    FunctionType { params: vec![ValueType::I32], return_type: None }
}

#[test]
fn embedder_functions_are_called_as_they_are() {
    let mut store = Store::new();
    let t = store.alloc_func_type(signature());
    let func = store.alloc_host_func(t, HostFuncId(3));
    let invocation = store.invoke(func, vec![RuntimeValue::I64(1)], LIMITS);
    match &invocation {
        Invocation::CallHost(host_func, args) => {
            assert_eq!(*host_func, HostFuncId(3));
            assert_eq!(*args, vec![RuntimeValue::I64(1)]);
        }
        _ => panic!("the embedder is to be called"),
    }
    match invocation.returned(Ok(Some(RuntimeValue::I32(9)))) {
        Invocation::Done(Ok(val)) => assert_eq!(val, Some(RuntimeValue::I32(9))),
        _ => panic!("the call is over"),
    }
}

#[test]
fn module_functions_are_run_once_arguments_are_checked() {
    let mut store = Store::new();
    let t = store.alloc_func_type(signature());
    let body = FuncBody { locals: vec![], opcodes: vec![], labels: HashMap::new() };
    let func = store.alloc_func(ModuleId(0), Rc::clone(&t), body);
    let invocation = store.invoke(Rc::clone(&func), vec![RuntimeValue::I32(1)], LIMITS);
    match &invocation {
        Invocation::Prepare(call) => {
            assert!(Rc::ptr_eq(&call.func, &func));
            assert!(Rc::ptr_eq(&call.func_type, &t));
            assert_eq!(call.args, vec![RuntimeValue::I32(1)]);
            assert_eq!(call.limits, LIMITS);
        }
        _ => panic!("arguments are to be checked"),
    }
    let invocation = invocation.prepared(Ok(vec![RuntimeValue::I32(2)]));
    match &invocation {
        Invocation::Run(context) => {
            assert!(Rc::ptr_eq(&context.func, &func));
            assert!(Rc::ptr_eq(&context.func_type, &t));
            assert_eq!(context.value_stack_limit, 10);
            assert_eq!(context.frame_stack_limit, 20);
            assert_eq!(context.args, vec![RuntimeValue::I32(2)]);
        }
        _ => panic!("the function is to be run"),
    }
    match invocation.returned(Err(Error::Engine("trap".to_string()))) {
        Invocation::Done(Err(Error::Engine(message))) => assert_eq!(message, "trap"),
        _ => panic!("the call is over"),
    }
}

#[test]
fn refused_arguments_end_the_invocation() {
    let mut store = Store::new();
    let t = store.alloc_func_type(signature());
    let body = FuncBody { locals: vec![], opcodes: vec![], labels: HashMap::new() };
    let func = store.alloc_func(ModuleId(0), t, body);
    let invocation = store.invoke(func, vec![], LIMITS);
    match invocation.prepared(Err(Error::Engine("too few".to_string()))) {
        Invocation::Done(Err(Error::Engine(message))) => assert_eq!(message, "too few"),
        _ => panic!("nothing is to be run"),
    }
}
