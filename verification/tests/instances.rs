use std::collections::HashMap;
use std::rc::Rc;

use wasm_store::error::Error;
use wasm_store::func::{FuncBody, FuncInstance, HostFuncId, ModuleId};
use wasm_store::heap::Heap;
use wasm_store::instance::{ExternVal, GlobalId, GlobalInstance, MemoryInstance, ModuleInstance, TableInstance};
use wasm_store::module::{Local, Opcode};
use wasm_store::store::Store;
use wasm_store::text::push_decimal;
use wasm_store::types::{FunctionType, GlobalType, ResizableLimits, ValueType};
use wasm_store::value::RuntimeValue;
use wasm_store::StringHashMap;

fn limits(initial: u32, maximum: Option<u32>) -> ResizableLimits {
    ResizableLimits { initial, maximum }
}

fn signature() -> FunctionType {
    FunctionType { params: vec![ValueType::I32, ValueType::F64], return_type: Some(ValueType::I64) }
}

#[test]
fn decimals_are_written_out() {
    let cases: Vec<u64> = vec![0, 7, 10, 99, 100, 4294967295, 18446744073709551615];
    for n in cases {
        let mut out = String::from("n=");
        push_decimal(&mut out, n);
        assert_eq!(out, format!("n={}", n));
    }
}

#[test]
fn signature_text_is_its_debug_text() {
    for t in vec![
        signature(),
        FunctionType { params: vec![], return_type: None },
        FunctionType { params: vec![ValueType::F32], return_type: None },
    ] {
        let mut out = String::new();
        t.push_text(&mut out);
        assert_eq!(out, format!("{:?}", t));
    }
}

#[test]
fn signatures_are_compared_by_contents() {
    assert!(signature() == signature().clone());
    assert!(signature() != FunctionType { params: vec![ValueType::I32], return_type: Some(ValueType::I64) });
    assert!(
        signature()
            != FunctionType { params: vec![ValueType::I32, ValueType::F32], return_type: Some(ValueType::I64) }
    );
    assert!(signature() != FunctionType { params: signature().params, return_type: None });
}

#[test]
fn limits_text_is_their_debug_text() {
    for l in vec![limits(0, None), limits(17, Some(65536))] {
        let mut out = String::new();
        l.push_text(&mut out);
        assert_eq!(out, format!("{:?}", l));
    }
}

#[test]
fn functions_are_written_with_their_type() {
    let mut store = Store::new();
    let t = store.alloc_func_type(FunctionType { params: vec![], return_type: Some(ValueType::I32) });
    let host = store.alloc_host_func(Rc::clone(&t), HostFuncId(5));
    assert_eq!(host.fmt("nothing"), "Host { type=FunctionType { params: [], return_type: Some(I32) } }");
    let body = FuncBody { locals: vec![], opcodes: vec![], labels: HashMap::new() };
    let func = store.alloc_func(ModuleId(12), t, body);
    assert_eq!(
        func.fmt("ModuleInstance { .. }"),
        "Internal { type=FunctionType { params: [], return_type: Some(I32) }, module=ModuleInstance { .. } }"
    );
}

#[test]
fn function_parts() {
    let mut store = Store::new();
    let t = store.alloc_func_type(signature());
    let host = store.alloc_host_func(Rc::clone(&t), HostFuncId(0));
    assert!(*host.func_type() == signature());
    assert!(host.body().is_none());
    let mut labels: HashMap<usize, usize> = HashMap::new();
    labels.insert(3, 9);
    let body = FuncBody {
        locals: vec![Local { count: 2, value_type: ValueType::I32 }],
        opcodes: vec![Opcode::Other(vec![0x6a]), Opcode::End],
        labels,
    };
    let func = store.alloc_func(ModuleId(0), t, body.clone());
    let got = func.body().expect("a function of a module has a body");
    assert_eq!(got.locals, vec![Local { count: 2, value_type: ValueType::I32 }]);
    assert_eq!(format!("{:?}", got.opcodes), format!("{:?}", body.opcodes));
    assert_eq!(got.labels.get(&3), Some(&9));
    assert!(*func.func_type() == signature());
}

#[test]
fn extern_values_are_of_one_kind() {
    let mut store = Store::new();
    let t = store.alloc_func_type(signature());
    let func = store.alloc_host_func(t, HostFuncId(1));
    let table = Rc::new(TableInstance { handle: 2, limits: limits(1, None) });
    let memory = Rc::new(MemoryInstance { handle: 3, limits: limits(1, Some(2)) });
    let vals = vec![
        ExternVal::Func(func),
        ExternVal::Table(table),
        ExternVal::Memory(memory),
        ExternVal::Global(GlobalId(4)),
    ];
    for (i, val) in vals.iter().enumerate() {
        let val = val.clone();
        assert_eq!(val.as_func().is_some(), i == 0);
        assert_eq!(val.as_table().is_some(), i == 1);
        assert_eq!(val.as_memory().is_some(), i == 2);
        assert_eq!(val.as_global().is_some(), i == 3);
    }
    assert_eq!(vals[1].as_table().map(|t| t.handle), Some(2));
    assert_eq!(vals[2].as_memory().map(|m| m.limits.maximum), Some(Some(2)));
    assert_eq!(vals[3].as_global(), Some(GlobalId(4)));
    let texts: Vec<String> = vals.iter().map(|val| val.fmt("held")).collect();
    assert_eq!(texts, vec!["Func(held)", "Table(held)", "Memory(held)", "Global(held)"]);
}

#[test]
fn mutable_global_keeps_what_is_set() {
    let mut global = GlobalInstance::new(RuntimeValue::I32(1), true);
    assert_eq!(global.get(), RuntimeValue::I32(1));
    assert!(global.set(RuntimeValue::F32(0x7fc0_0000)).is_ok());
    assert_eq!(global.get(), RuntimeValue::F32(0x7fc0_0000));
}

#[test]
fn immutable_global_cannot_be_set() {
    let mut global = GlobalInstance::new(RuntimeValue::I64(-1), false);
    match global.set(RuntimeValue::I64(2)) {
        Err(Error::Validation(message)) => assert_eq!(message, "Can't set immutable global"),
        other => panic!("unexpected {:?}", other),
    }
    assert_eq!(global.get(), RuntimeValue::I64(-1));
}

#[test]
fn globals_on_a_heap() {
    let mut heap = Heap::new();
    let fixed = Store::new().alloc_global(
        &mut heap,
        GlobalType { content_type: ValueType::I32, is_mutable: false },
        RuntimeValue::I32(1),
    );
    let variable = Store::new().alloc_global(
        &mut heap,
        GlobalType { content_type: ValueType::I32, is_mutable: true },
        RuntimeValue::I32(2),
    );
    assert!(heap.has_global(fixed) && heap.has_global(variable));
    assert!(!heap.has_global(GlobalId(2)));
    assert!(!heap.has_module(ModuleId(0)));
    assert!(heap.set_global(fixed, RuntimeValue::I32(7)).is_err());
    assert!(heap.set_global(variable, RuntimeValue::I32(8)).is_ok());
    assert_eq!(heap.global(fixed).get(), RuntimeValue::I32(1));
    assert_eq!(heap.global(variable).get(), RuntimeValue::I32(8));
}

#[test]
fn functions_can_be_given_an_instance_of_exports() {
    let mut heap = Heap::new();
    let mut exports = StringHashMap::new();
    exports.insert("t".to_string(), ExternVal::Table(Rc::new(TableInstance { handle: 6, limits: limits(1, None) })));
    let home = heap.push_module(ModuleInstance::with_exports(exports));
    assert_eq!(home, ModuleId(0));
    assert_eq!(heap.module(home).export_by_name("t").unwrap().as_table().unwrap().handle, 6);
    let mut store = Store::new();
    let t = store.alloc_func_type(signature());
    let body = FuncBody { locals: vec![], opcodes: vec![], labels: HashMap::new() };
    match &*store.alloc_func(home, t, body) {
        FuncInstance::Internal { module, .. } => assert_eq!(*module, home),
        _ => panic!("a module defines the function"),
    }
}

#[test]
fn created_tables_and_memories_are_passed_on() {
    let mut store = Store::new();
    let table = TableInstance { handle: 1, limits: limits(3, None) };
    assert_eq!(*store.alloc_table(Ok(table)).unwrap(), table);
    match store.alloc_table(Err(Error::Engine("no table".to_string()))) {
        Err(Error::Engine(message)) => assert_eq!(message, "no table"),
        other => panic!("unexpected {:?}", other),
    }
    let memory = MemoryInstance { handle: 2, limits: limits(4, Some(5)) };
    assert_eq!(*store.alloc_memory(Ok(memory)).unwrap(), memory);
    match store.alloc_memory(Err(Error::Engine("no memory".to_string()))) {
        Err(Error::Engine(message)) => assert_eq!(message, "no memory"),
        other => panic!("unexpected {:?}", other),
    }
}

#[test]
fn instance_with_exports_has_nothing_else() {
    let mut exports = StringHashMap::new();
    exports.insert("g".to_string(), ExternVal::Global(GlobalId(9)));
    let instance = ModuleInstance::with_exports(exports);
    assert_eq!(instance.export_by_name("g").and_then(|v| v.as_global()), Some(GlobalId(9)));
    assert!(instance.export_by_name("h").is_none());
    assert!(instance.func_by_index(0).is_none());
    assert!(instance.table_by_index(0).is_none());
    assert!(instance.memory_by_index(0).is_none());
    assert!(instance.global_by_index(0).is_none());
    assert!(instance.type_by_index(0).is_none());
    assert!(ModuleInstance::default().export_by_name("g").is_none());
}

#[test]
fn copies_of_functions_share_their_code() {
    let mut store = Store::new();
    let t = store.alloc_func_type(signature());
    let body = FuncBody { locals: vec![], opcodes: vec![Opcode::End], labels: HashMap::new() };
    let func: Rc<FuncInstance> = store.alloc_func(ModuleId(1), t, body);
    let copy = (*func).clone();
    assert!(Rc::ptr_eq(&func.body().unwrap(), &copy.body().unwrap()));
}
