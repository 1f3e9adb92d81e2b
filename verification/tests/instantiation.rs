use std::collections::HashMap;
use std::rc::Rc;

use wasm_store::allocate::Prepared;
use wasm_store::error::{Error, Reason};
use wasm_store::func::{FuncInstance, HostFuncId, ModuleId};
use wasm_store::heap::Heap;
use wasm_store::init::{check_const_expr, const_value, eval_init_expr};
use wasm_store::instance::{ExternVal, GlobalId, MemoryInstance, ModuleInstance, TableInstance};
use wasm_store::instantiate::{Action, Instantiation};
use wasm_store::link::match_limits;
use wasm_store::module::{
    CodeBody, DataSegment, ElementSegment, ExportEntry, External, GlobalEntry, ImportEntry, InitExpr, Internal, Local,
    Module, ModuleAuxData, Opcode,
};
use wasm_store::prepare::{Creation, Preparation};
use wasm_store::ready::check_imports;
use wasm_store::store::Store;
use wasm_store::types::{FunctionType, GlobalType, MemoryType, ResizableLimits, TableType, ValueType};
use wasm_store::valid::check_valid;
use wasm_store::value::RuntimeValue;

fn limits(initial: u32, maximum: Option<u32>) -> ResizableLimits {
    ResizableLimits { initial, maximum }
}

fn empty_module() -> Module {
    Module {
        types: vec![],
        imports: vec![],
        functions: vec![],
        bodies: vec![],
        tables: vec![],
        memories: vec![],
        globals: vec![],
        exports: vec![],
        elements: vec![],
        data: vec![],
        start: None,
    }
}

fn constant(op: Opcode) -> InitExpr {
    InitExpr { code: vec![op, Opcode::End] }
}

fn import(field: &str, entry: External) -> ImportEntry {
    ImportEntry { module: "env".to_string(), field: field.to_string(), entry }
}

fn export(field: &str, internal: Internal) -> ExportEntry {
    ExportEntry { field: field.to_string(), internal }
}

fn global_type(is_mutable: bool) -> GlobalType {
    GlobalType { content_type: ValueType::I32, is_mutable }
}

/// What an engine would answer that creates everything it is asked for, with handles from 100 on.
fn prepared(module: &Module) -> Prepared {
    let mut labels: HashMap<usize, HashMap<usize, usize>> = HashMap::new();
    for i in 0..module.functions.len() {
        let mut inner: HashMap<usize, usize> = HashMap::new();
        inner.insert(0, i + 1);
        labels.insert(i, inner);
    }
    Prepared {
        validation: Ok(ModuleAuxData { labels }),
        tables: module
            .tables
            .iter()
            .enumerate()
            .map(|(i, t)| Ok(TableInstance { handle: 100 + i, limits: t.limits }))
            .collect(),
        memories: module
            .memories
            .iter()
            .enumerate()
            .map(|(i, t)| Ok(MemoryInstance { handle: 100 + i, limits: t.limits }))
            .collect(),
    }
}

fn instantiate(heap: &mut Heap, module: &Module, vals: &[ExternVal], p: Prepared) -> Result<Instantiation, Error> {
    assert!(heap.can_instantiate(module, vals, &p));
    Store::new().instantiate_module(heap, module, vals, p)
}

fn refusal(heap: &mut Heap, module: &Module, vals: &[ExternVal], p: Prepared) -> Error {
    match instantiate(heap, module, vals, p) {
        Ok(_) => panic!("not refused"),
        Err(e) => e,
    }
}

fn initialization_message(e: Error) -> String {
    match e {
        Error::Initialization(Reason::Message(message)) => message,
        other => panic!("unexpected {:?}", other),
    }
}

fn finish(mut instantiation: Instantiation) -> ModuleId {
    while instantiation.pending().is_some() {
        instantiation.complete(Ok(()));
    }
    instantiation.result().unwrap()
}

fn host(params: Vec<ValueType>, handle: usize) -> ExternVal {
    let mut store = Store::new();
    let t = store.alloc_func_type(FunctionType { params, return_type: None });
    ExternVal::Func(store.alloc_host_func(t, HostFuncId(handle)))
}

fn table(initial: u32, maximum: Option<u32>) -> ExternVal {
    ExternVal::Table(Rc::new(TableInstance { handle: 1, limits: limits(initial, maximum) }))
}

fn memory(initial: u32, maximum: Option<u32>) -> ExternVal {
    ExternVal::Memory(Rc::new(MemoryInstance { handle: 2, limits: limits(initial, maximum) }))
}

fn func_type(params: Vec<ValueType>) -> FunctionType {
    FunctionType { params, return_type: None }
}

/// A module with one import of each kind, one definition of each kind, and exports of all.
fn full_module() -> Module {
    Module {
        types: vec![func_type(vec![]), func_type(vec![ValueType::I32])],
        imports: vec![
            import("f", External::Function(1)),
            import("g", External::Global(global_type(false))),
            import("t", External::Table(TableType { limits: limits(1, None) })),
            import("m", External::Memory(MemoryType { limits: limits(1, None) })),
        ],
        functions: vec![0, 1],
        bodies: vec![
            CodeBody { locals: vec![Local { count: 1, value_type: ValueType::I64 }], code: vec![Opcode::End] },
            CodeBody { locals: vec![], code: vec![Opcode::Other(vec![1]), Opcode::End] },
        ],
        tables: vec![TableType { limits: limits(5, Some(6)) }],
        memories: vec![MemoryType { limits: limits(7, Some(8)) }],
        globals: vec![
            GlobalEntry { global_type: global_type(true), init_expr: constant(Opcode::GetGlobal(0)) },
            GlobalEntry { global_type: global_type(false), init_expr: constant(Opcode::GetGlobal(1)) },
            GlobalEntry { global_type: global_type(false), init_expr: constant(Opcode::I64Const(-5)) },
        ],
        exports: vec![
            export("imported_f", Internal::Function(0)),
            export("own_f", Internal::Function(2)),
            export("own_t", Internal::Table(1)),
            export("own_m", Internal::Memory(1)),
            export("imported_g", Internal::Global(0)),
            export("twice", Internal::Global(1)),
            export("twice", Internal::Global(3)),
        ],
        elements: vec![
            ElementSegment { offset: constant(Opcode::I32Const(2)), members: vec![1, 0, 2] },
            ElementSegment { offset: constant(Opcode::GetGlobal(0)), members: vec![2] },
        ],
        data: vec![
            DataSegment { offset: constant(Opcode::I32Const(-1)), value: vec![9, 8] },
            DataSegment { offset: constant(Opcode::GetGlobal(2)), value: vec![] },
        ],
        start: Some(1),
    }
}

fn full_values(heap: &mut Heap) -> (Vec<ExternVal>, GlobalId) {
    let f = host(vec![ValueType::I32], 77);
    let g = Store::new().alloc_global(heap, global_type(true), RuntimeValue::I32(40));
    (vec![f, ExternVal::Global(g), table(1, None), memory(1, None)], g)
}

#[test]
fn limits_match() {
    assert!(match_limits(&limits(1, None), &limits(1, None)).is_ok());
    assert!(match_limits(&limits(2, None), &limits(1, None)).is_ok());
    assert!(match_limits(&limits(2, Some(3)), &limits(1, None)).is_ok());
    assert!(match_limits(&limits(2, Some(3)), &limits(2, Some(3))).is_ok());
    assert!(match_limits(&limits(2, Some(3)), &limits(2, Some(4))).is_ok());
}

#[test]
fn limits_mismatch_messages() {
    let e = match_limits(&limits(1, None), &limits(20, Some(1))).unwrap_err();
    assert_eq!(initialization_message(e), "trying to import with limits l1.initial=1 and l2.initial=20");
    let e = match_limits(&limits(1, None), &limits(1, Some(10))).unwrap_err();
    assert_eq!(initialization_message(e), "trying to import with limits l1.max=None and l2.max=Some(10)");
    let e = match_limits(&limits(1, Some(11)), &limits(1, Some(10))).unwrap_err();
    assert_eq!(initialization_message(e), "trying to import with limits l1.max=Some(11) and l2.max=Some(10)");
}

#[test]
fn constant_expressions() {
    let mut heap = Heap::new();
    let g = Store::new().alloc_global(&mut heap, global_type(true), RuntimeValue::F64(17));
    let mut module = empty_module();
    module.imports = vec![import("g", External::Global(global_type(false)))];
    let p = prepared(&module);
    let id = finish(instantiate(&mut heap, &module, &[ExternVal::Global(g)], p).ok().unwrap());
    let cases = vec![
        (Opcode::I32Const(-3), RuntimeValue::I32(-3)),
        (Opcode::I64Const(4), RuntimeValue::I64(4)),
        (Opcode::F32Const(0x3f80_0000), RuntimeValue::F32(0x3f80_0000)),
        (Opcode::F64Const(5), RuntimeValue::F64(5)),
        (Opcode::GetGlobal(0), RuntimeValue::F64(17)),
    ];
    for (op, val) in cases {
        let expr = constant(op);
        assert!(check_const_expr(&expr, 1));
        assert_eq!(eval_init_expr(&expr, heap.module(id), &heap), val);
        assert_eq!(const_value(&expr, &vec![RuntimeValue::F64(17)]), val);
    }
    assert!(!check_const_expr(&constant(Opcode::GetGlobal(1)), 1));
    assert!(!check_const_expr(&constant(Opcode::End), 1));
    assert!(!check_const_expr(&constant(Opcode::Other(vec![0])), 1));
    assert!(!check_const_expr(&InitExpr { code: vec![Opcode::I32Const(1)] }, 1));
}

#[test]
fn imports_come_first_and_definitions_follow() {
    let mut heap = Heap::new();
    let (vals, g) = full_values(&mut heap);
    let module = full_module();
    let p = prepared(&module);
    let id = finish(instantiate(&mut heap, &module, &vals, p).ok().unwrap());
    assert_eq!(id, ModuleId(0));
    let instance: &ModuleInstance = heap.module(id);

    assert!(*instance.type_by_index(1).unwrap() == func_type(vec![ValueType::I32]));
    assert!(instance.type_by_index(2).is_none());

    match &*instance.func_by_index(0).unwrap() {
        FuncInstance::Host { host_func, .. } => assert_eq!(*host_func, HostFuncId(77)),
        _ => panic!("the imported function comes first"),
    }
    for i in 0..2u32 {
        match &*instance.func_by_index(1 + i).unwrap() {
            FuncInstance::Internal { func_type: t, module: home, body } => {
                assert!(**t == module.types[i as usize]);
                assert_eq!(*home, id);
                assert_eq!(body.locals, module.bodies[i as usize].locals);
                assert_eq!(format!("{:?}", body.opcodes), format!("{:?}", module.bodies[i as usize].code));
                assert_eq!(body.labels.get(&0), Some(&(i as usize + 1)));
            }
            _ => panic!("own functions follow"),
        }
    }
    assert!(instance.func_by_index(3).is_none());

    assert_eq!(instance.table_by_index(0).unwrap().handle, 1);
    assert_eq!(*instance.table_by_index(1).unwrap(), TableInstance { handle: 100, limits: limits(5, Some(6)) });
    assert!(instance.table_by_index(2).is_none());
    assert_eq!(instance.memory_by_index(0).unwrap().handle, 2);
    assert_eq!(*instance.memory_by_index(1).unwrap(), MemoryInstance { handle: 100, limits: limits(7, Some(8)) });
    assert!(instance.memory_by_index(2).is_none());

    assert_eq!(instance.global_by_index(0), Some(g));
    let values: Vec<RuntimeValue> =
        (0..4).map(|i| heap.global(instance.global_by_index(i).unwrap()).get()).collect();
    assert_eq!(
        values,
        vec![RuntimeValue::I32(40), RuntimeValue::I32(40), RuntimeValue::I32(40), RuntimeValue::I64(-5)]
    );
    assert!(instance.global_by_index(4).is_none());
}

#[test]
fn exports_are_found_by_name() {
    let mut heap = Heap::new();
    let (vals, g) = full_values(&mut heap);
    let module = full_module();
    let p = prepared(&module);
    let id = finish(instantiate(&mut heap, &module, &vals, p).ok().unwrap());
    let instance = heap.module(id);
    let imported = instance.export_by_name("imported_f").unwrap().as_func().unwrap();
    assert!(Rc::ptr_eq(&imported, &vals[0].as_func().unwrap()));
    let own = instance.export_by_name("own_f").unwrap().as_func().unwrap();
    assert!(Rc::ptr_eq(&own, &instance.func_by_index(2).unwrap()));
    assert_eq!(instance.export_by_name("own_t").unwrap().as_table().unwrap().handle, 100);
    assert_eq!(instance.export_by_name("own_m").unwrap().as_memory().unwrap().handle, 100);
    assert_eq!(instance.export_by_name("imported_g").unwrap().as_global(), Some(g));
    assert_eq!(instance.export_by_name("twice").unwrap().as_global(), instance.global_by_index(3));
    assert!(instance.export_by_name("other").is_none());
}

#[test]
fn actions_in_order() {
    let mut heap = Heap::new();
    let (vals, _) = full_values(&mut heap);
    let module = full_module();
    let p = prepared(&module);
    let mut instantiation = instantiate(&mut heap, &module, &vals, p).ok().unwrap();
    let instance = heap.module(ModuleId(0));
    let places: Vec<(u32, u32)> = vec![(2, 1), (3, 0), (4, 2), (40, 2)];
    for (place, idx) in places {
        match instantiation.pending() {
            Some(Action::SetTable { table, offset, func }) => {
                assert_eq!(table.handle, 1);
                assert_eq!(*offset, place);
                assert!(Rc::ptr_eq(func, &instance.func_by_index(idx).unwrap()));
            }
            _ => panic!("tables are filled first"),
        }
        instantiation.complete(Err(Error::Engine("passed over".to_string())));
    }
    let writes: Vec<(u32, Vec<u8>)> = vec![(4294967295, vec![9, 8]), (40, vec![])];
    for (place, bytes) in writes {
        match instantiation.pending() {
            Some(Action::SetMemory { memory, offset, value }) => {
                assert_eq!(memory.handle, 2);
                assert_eq!(*offset, place);
                assert_eq!(*value, bytes);
            }
            _ => panic!("memories are filled next"),
        }
        instantiation.complete(Ok(()));
    }
    match instantiation.pending() {
        Some(Action::Invoke { func, args }) => {
            assert!(Rc::ptr_eq(func, &instance.func_by_index(1).unwrap()));
            assert!(args.is_empty());
        }
        _ => panic!("the start function is called last"),
    }
    instantiation.complete(Ok(()));
    assert!(instantiation.pending().is_none());
    assert_eq!(instantiation.result().unwrap(), ModuleId(0));
}

#[test]
fn failed_write_ends_the_instantiation() {
    let mut heap = Heap::new();
    let (vals, _) = full_values(&mut heap);
    let module = full_module();
    let p = prepared(&module);
    let mut instantiation = instantiate(&mut heap, &module, &vals, p).ok().unwrap();
    for _ in 0..4 {
        instantiation.complete(Ok(()));
    }
    instantiation.complete(Err(Error::Engine("out of bounds".to_string())));
    assert!(instantiation.pending().is_none());
    match instantiation.result() {
        Err(Error::Engine(message)) => assert_eq!(message, "out of bounds"),
        other => panic!("unexpected {:?}", other),
    }
    assert!(heap.has_module(ModuleId(0)));
}

#[test]
fn failed_start_function_ends_the_instantiation() {
    let mut heap = Heap::new();
    let mut module = empty_module();
    module.types = vec![func_type(vec![])];
    module.imports = vec![import("start", External::Function(0))];
    module.start = Some(0);
    let vals = vec![host(vec![], 0)];
    let p = prepared(&module);
    let mut instantiation = instantiate(&mut heap, &module, &vals, p).ok().unwrap();
    instantiation.complete(Err(Error::Engine("trap".to_string())));
    assert!(instantiation.result().is_err());
}

#[test]
fn globals_are_shared_between_modules() {
    let mut heap = Heap::new();
    let mut first = empty_module();
    first.globals = vec![GlobalEntry { global_type: global_type(true), init_expr: constant(Opcode::I32Const(1)) }];
    first.exports = vec![export("counter", Internal::Global(0))];
    let p = prepared(&first);
    let a = finish(instantiate(&mut heap, &first, &[], p).ok().unwrap());
    let counter = heap.module(a).export_by_name("counter").unwrap();
    let mut second = empty_module();
    second.imports = vec![import("counter", External::Global(global_type(true)))];
    second.exports = vec![export("again", Internal::Global(0))];
    let p = prepared(&second);
    let b = finish(instantiate(&mut heap, &second, &[counter], p).ok().unwrap());
    assert_eq!(b, ModuleId(1));
    let through_b = heap.module(b).export_by_name("again").unwrap().as_global().unwrap();
    heap.set_global(through_b, RuntimeValue::I32(5)).unwrap();
    let through_a = heap.module(a).global_by_index(0).unwrap();
    assert_eq!(heap.global(through_a).get(), RuntimeValue::I32(5));
}

#[test]
fn later_modules_leave_earlier_ones_alone() {
    let mut heap = Heap::new();
    let mut module = empty_module();
    module.globals = vec![GlobalEntry { global_type: global_type(false), init_expr: constant(Opcode::I32Const(6)) }];
    let p = prepared(&module);
    let a = finish(instantiate(&mut heap, &module, &[], p).ok().unwrap());
    let p = prepared(&module);
    let b = finish(instantiate(&mut heap, &module, &[], p).ok().unwrap());
    assert_ne!(heap.module(a).global_by_index(0), heap.module(b).global_by_index(0));
    assert_eq!(heap.global(heap.module(a).global_by_index(0).unwrap()).get(), RuntimeValue::I32(6));
}

#[test]
fn invalid_module_is_refused() {
    let mut heap = Heap::new();
    let module = full_module();
    let p = Prepared {
        validation: Err(Error::Validation("no".to_string())),
        tables: vec![],
        memories: vec![],
    };
    match refusal(&mut heap, &module, &[], p) {
        Error::Validation(message) => assert_eq!(message, "no"),
        other => panic!("unexpected {:?}", other),
    }
    assert!(!heap.has_module(ModuleId(0)));
}

#[test]
fn wrong_number_of_values_is_refused() {
    let mut heap = Heap::new();
    let module = full_module();
    let p = prepared(&module);
    let e = refusal(&mut heap, &module, &[], p);
    assert_eq!(initialization_message(e), "extern_vals length is not equal to import section entries");
    assert!(!heap.has_module(ModuleId(0)));
}

#[test]
fn wrong_signature_is_refused() {
    let mut heap = Heap::new();
    let mut module = empty_module();
    module.types = vec![func_type(vec![ValueType::I32])];
    module.imports = vec![import("callback", External::Function(0))];
    let vals = vec![host(vec![ValueType::I64, ValueType::F32], 0)];
    let p = prepared(&module);
    let e = refusal(&mut heap, &module, &vals, p);
    assert_eq!(
        initialization_message(e),
        "Expected function with type FunctionType { params: [I32], return_type: None }, but actual type is \
         FunctionType { params: [I64, F32], return_type: None } for entry callback"
    );
}

#[test]
fn wrong_limits_are_refused() {
    let mut heap = Heap::new();
    let mut module = empty_module();
    module.imports = vec![import("t", External::Table(TableType { limits: limits(3, None) }))];
    let p = prepared(&module);
    let e = refusal(&mut heap, &module, &[table(2, None)], p);
    assert_eq!(initialization_message(e), "trying to import with limits l1.initial=2 and l2.initial=3");
    module.imports = vec![import("m", External::Memory(MemoryType { limits: limits(1, Some(1)) }))];
    let p = prepared(&module);
    let e = refusal(&mut heap, &module, &[memory(1, Some(2))], p);
    assert_eq!(initialization_message(e), "trying to import with limits l1.max=Some(2) and l2.max=Some(1)");
}

/// The position and the message of a refusal for the kind of a value, which is written as `actual`.
fn kind_refusal(e: Error, actual: &str) -> (usize, String) {
    match e {
        Error::Initialization(reason) => match reason {
            Reason::Kind { position, .. } => (position, reason.message(actual)),
            Reason::Message(message) => panic!("unexpected {}", message),
        },
        other => panic!("unexpected {:?}", other),
    }
}

#[test]
fn wrong_kind_is_refused() {
    let mut heap = Heap::new();
    let g = Store::new().alloc_global(&mut heap, global_type(false), RuntimeValue::I32(0));
    let mut module = empty_module();
    module.types = vec![func_type(vec![])];
    module.imports = vec![import("f", External::Function(0))];
    let p = prepared(&module);
    let val = ExternVal::Global(g);
    let text = val.fmt("GlobalInstance { val: Cell { value: I32(0) }, mutable: false }");
    assert_eq!(
        kind_refusal(refusal(&mut heap, &module, &[val], p), &text),
        (
            0,
            "Expected Function(0) type, but provided \
             Global(GlobalInstance { val: Cell { value: I32(0) }, mutable: false }) extern_val"
                .to_string()
        )
    );
    module.imports = vec![import("t", External::Table(TableType { limits: limits(3, None) }))];
    let vals = vec![host(vec![], 0)];
    let text = vals[0].fmt(&vals[0].as_func().unwrap().fmt(""));
    let p = prepared(&module);
    assert_eq!(
        kind_refusal(refusal(&mut heap, &module, &vals, p), &text),
        (
            0,
            "Expected Table(TableType { limits: ResizableLimits { initial: 3, maximum: None } }) type, but provided \
             Func(Host { type=FunctionType { params: [], return_type: None } }) extern_val"
                .to_string()
        )
    );
    module.imports =
        vec![import("t", External::Table(TableType { limits: limits(1, None) })), import("g", External::Global(global_type(true)))];
    let p = prepared(&module);
    let vals = vec![table(1, Some(2)), table(1, Some(2))];
    let text = vals[1].fmt("the table");
    assert_eq!(
        kind_refusal(refusal(&mut heap, &module, &vals, p), &text),
        (
            1,
            "Expected Global(GlobalType { content_type: I32, is_mutable: true }) type, but provided \
             Table(the table) extern_val"
                .to_string()
        )
    );
    module.imports = vec![import("m", External::Memory(MemoryType { limits: limits(0, None) }))];
    let p = prepared(&module);
    assert_eq!(
        kind_refusal(refusal(&mut heap, &module, &[table(1, Some(2))], p), &text),
        (
            0,
            "Expected Memory(MemoryType { limits: ResizableLimits { initial: 0, maximum: None } }) type, but provided \
             Table(the table) extern_val"
                .to_string()
        )
    );
}

#[test]
fn refusals_are_put_into_words() {
    let mut heap = Heap::new();
    let g = Store::new().alloc_global(&mut heap, global_type(true), RuntimeValue::I64(7));
    let mut module = empty_module();
    module.types = vec![func_type(vec![])];
    module.imports = vec![
        import("t", External::Table(TableType { limits: limits(1, None) })),
        import("f", External::Function(0)),
        import("m", External::Memory(MemoryType { limits: limits(1, None) })),
    ];
    let vals = vec![table(1, None), ExternVal::Global(g), table(1, None)];
    let p = prepared(&module);
    let e = refusal(&mut heap, &module, &vals, p);
    assert_eq!(e.offered(&vals).and_then(|val| val.as_global()), Some(g));
    let e = e.in_words(&vals, "GlobalInstance { val: Cell { value: I64(7) }, mutable: true }");
    assert!(e.offered(&vals).is_none());
    assert_eq!(
        initialization_message(e),
        "Expected Function(0) type, but provided \
         Global(GlobalInstance { val: Cell { value: I64(7) }, mutable: true }) extern_val"
    );
}

#[test]
fn other_errors_are_in_words_already() {
    let vals = vec![table(1, None)];
    let e = match_limits(&limits(1, None), &limits(20, None)).unwrap_err();
    assert!(e.offered(&vals).is_none());
    assert_eq!(
        initialization_message(e.in_words(&vals, "anything")),
        "trying to import with limits l1.initial=1 and l2.initial=20"
    );
    assert!(matches!(
        Error::Validation("no".to_string()).in_words(&vals, "anything"),
        Error::Validation(message) if message == "no"
    ));
    let beyond = Error::Initialization(Reason::Kind { position: 1, expected: External::Function(0) });
    assert!(beyond.offered(&vals).is_none());
    assert!(matches!(
        beyond.in_words(&vals, "anything"),
        Error::Initialization(Reason::Kind { position: 1, expected: External::Function(0) })
    ));
}

#[test]
fn message_of_a_reason_in_words_is_itself() {
    let e = match_limits(&limits(1, None), &limits(20, Some(1))).unwrap_err();
    match e.clone() {
        Error::Initialization(reason) => {
            assert_eq!(reason.message("anything"), "trying to import with limits l1.initial=1 and l2.initial=20")
        }
        other => panic!("unexpected {:?}", other),
    }
}

#[test]
fn any_global_satisfies_a_global_import() {
    let mut heap = Heap::new();
    let g = Store::new().alloc_global(&mut heap, global_type(true), RuntimeValue::F64(1));
    let mut module = empty_module();
    module.imports = vec![import("g", External::Global(global_type(false)))];
    let p = prepared(&module);
    assert!(instantiate(&mut heap, &module, &[ExternVal::Global(g)], p).is_ok());
}

#[test]
fn first_mismatch_is_reported() {
    let mut heap = Heap::new();
    let mut module = empty_module();
    module.imports = vec![
        import("a", External::Table(TableType { limits: limits(1, None) })),
        import("b", External::Table(TableType { limits: limits(9, None) })),
        import("c", External::Table(TableType { limits: limits(1, Some(0)) })),
    ];
    let vals = vec![table(1, None), table(1, None), table(1, None)];
    let p = prepared(&module);
    let e = refusal(&mut heap, &module, &vals, p);
    assert_eq!(initialization_message(e), "trying to import with limits l1.initial=1 and l2.initial=9");
}

#[test]
fn failure_to_create_is_reported_tables_first() {
    let mut heap = Heap::new();
    let mut module = empty_module();
    module.tables = vec![TableType { limits: limits(1, None) }];
    module.memories = vec![MemoryType { limits: limits(1, None) }];
    module.globals = vec![GlobalEntry { global_type: global_type(false), init_expr: constant(Opcode::I32Const(6)) }];
    let mut p = prepared(&module);
    p.tables[0] = Err(Error::Engine("table".to_string()));
    p.memories[0] = Err(Error::Engine("memory".to_string()));
    match refusal(&mut heap, &module, &[], p) {
        Error::Engine(message) => assert_eq!(message, "table"),
        other => panic!("unexpected {:?}", other),
    }
    let mut p = prepared(&module);
    p.memories[0] = Err(Error::Engine("memory".to_string()));
    match refusal(&mut heap, &module, &[], p) {
        Error::Engine(message) => assert_eq!(message, "memory"),
        other => panic!("unexpected {:?}", other),
    }
    assert!(!heap.has_module(ModuleId(0)));
    assert!(!heap.has_global(GlobalId(0)));
}

#[test]
fn imports_can_be_checked_alone() {
    let mut heap = Heap::new();
    let (vals, _) = full_values(&mut heap);
    let module = full_module();
    assert!(check_imports(&module, &vals).is_ok());
    let e = check_imports(&module, &vals[1..]).unwrap_err();
    assert_eq!(initialization_message(e), "extern_vals length is not equal to import section entries");
}

#[test]
fn refused_module_needs_no_tables() {
    let mut heap = Heap::new();
    let module = full_module();
    let mut p = prepared(&module);
    p.tables.clear();
    p.memories.clear();
    let e = refusal(&mut heap, &module, &[], p);
    assert_eq!(initialization_message(e), "extern_vals length is not equal to import section entries");
}

#[test]
fn validity_is_checked() {
    let module = full_module();
    let labels = |n: usize| -> ModuleAuxData {
        let mut all: HashMap<usize, HashMap<usize, usize>> = HashMap::new();
        for i in 0..n {
            all.insert(i, HashMap::new());
        }
        ModuleAuxData { labels: all }
    };
    assert!(check_valid(&module, &labels(2)));
    assert!(!check_valid(&module, &labels(1)));

    let mut m = full_module();
    m.imports[0].entry = External::Function(2);
    assert!(!check_valid(&m, &labels(2)));
    let mut m = full_module();
    m.functions[1] = 2;
    assert!(!check_valid(&m, &labels(2)));
    let mut m = full_module();
    m.bodies.pop();
    assert!(!check_valid(&m, &labels(2)));
    let mut m = full_module();
    m.globals[0].init_expr = constant(Opcode::GetGlobal(1));
    assert!(!check_valid(&m, &labels(2)));
    for internal in
        vec![Internal::Function(3), Internal::Table(2), Internal::Memory(2), Internal::Global(4)]
    {
        let mut m = full_module();
        m.exports[0].internal = internal;
        assert!(!check_valid(&m, &labels(2)));
    }
    let mut m = full_module();
    m.elements[0].members[2] = 3;
    assert!(!check_valid(&m, &labels(2)));
    let mut m = full_module();
    m.elements[0].offset = constant(Opcode::End);
    assert!(!check_valid(&m, &labels(2)));
    let mut m = full_module();
    m.data[1].offset = constant(Opcode::GetGlobal(4));
    assert!(!check_valid(&m, &labels(2)));
    let mut m = full_module();
    m.start = Some(3);
    assert!(!check_valid(&m, &labels(2)));
    let mut m = empty_module();
    m.data = vec![DataSegment { offset: constant(Opcode::I32Const(0)), value: vec![] }];
    assert!(!check_valid(&m, &labels(0)));
    let mut m = empty_module();
    m.elements = vec![ElementSegment { offset: constant(Opcode::I32Const(0)), members: vec![] }];
    assert!(!check_valid(&m, &labels(0)));
}

#[test]
fn readiness_is_checked() {
    let mut heap = Heap::new();
    let (vals, g) = full_values(&mut heap);
    let module = full_module();
    assert!(heap.can_instantiate(&module, &vals, &prepared(&module)));

    let mut p = prepared(&module);
    p.tables.pop();
    assert!(!heap.can_instantiate(&module, &vals, &p));

    let foreign = vec![vals[0].clone(), ExternVal::Global(GlobalId(55)), vals[2].clone(), vals[3].clone()];
    assert!(!heap.can_instantiate(&module, &foreign, &prepared(&module)));

    heap.set_global(g, RuntimeValue::I32(-1)).unwrap();
    assert!(heap.can_instantiate(&module, &vals, &prepared(&module)));
    let mut beyond = full_module();
    beyond.elements[1].members = vec![0, 0];
    assert!(!heap.can_instantiate(&beyond, &vals, &prepared(&beyond)));
    assert!(heap.can_instantiate(&beyond, &[], &prepared(&beyond)));

    heap.set_global(g, RuntimeValue::I64(1)).unwrap();
    assert!(!heap.can_instantiate(&module, &vals, &prepared(&module)));
}

#[test]
fn instances_of_one_module_are_separate() {
    let mut heap = Heap::new();
    let (vals, g) = full_values(&mut heap);
    let module = full_module();
    let a = finish(instantiate(&mut heap, &module, &vals, prepared(&module)).ok().unwrap());
    let mut p = prepared(&module);
    p.tables[0] = Ok(TableInstance { handle: 200, limits: limits(5, Some(6)) });
    p.memories[0] = Ok(MemoryInstance { handle: 200, limits: limits(7, Some(8)) });
    let b = finish(instantiate(&mut heap, &module, &vals, p).ok().unwrap());
    assert_ne!(a, b);
    let (of_a, of_b) = (heap.module(a), heap.module(b));

    assert!(Rc::ptr_eq(&of_a.func_by_index(0).unwrap(), &of_b.func_by_index(0).unwrap()));
    assert!(Rc::ptr_eq(&of_a.table_by_index(0).unwrap(), &of_b.table_by_index(0).unwrap()));
    assert!(Rc::ptr_eq(&of_a.memory_by_index(0).unwrap(), &of_b.memory_by_index(0).unwrap()));
    assert_eq!(of_a.global_by_index(0), Some(g));
    assert_eq!(of_b.global_by_index(0), Some(g));

    assert!(!Rc::ptr_eq(&of_a.func_by_index(1).unwrap(), &of_b.func_by_index(1).unwrap()));
    assert_ne!(of_a.table_by_index(1).unwrap().handle, of_b.table_by_index(1).unwrap().handle);
    assert_ne!(of_a.memory_by_index(1).unwrap().handle, of_b.memory_by_index(1).unwrap().handle);

    let (own_a, own_b) = (of_a.global_by_index(1).unwrap(), of_b.global_by_index(1).unwrap());
    assert_ne!(own_a, own_b);
    heap.set_global(own_a, RuntimeValue::I32(3)).unwrap();
    assert_eq!(heap.global(own_a).get(), RuntimeValue::I32(3));
    assert_eq!(heap.global(own_b).get(), RuntimeValue::I32(40));
}

#[test]
fn any_store_does() {
    let mut heap = Heap::new();
    let mut used = Store::new();
    let g = used.alloc_global(&mut heap, global_type(true), RuntimeValue::I32(1));
    let mut module = empty_module();
    module.imports = vec![import("g", External::Global(global_type(true)))];
    let mut fresh = Store::default();
    let a = finish(fresh.instantiate_module(&mut heap, &module, &[ExternVal::Global(g)], prepared(&module)).ok().unwrap());
    let b = finish(used.instantiate_module(&mut heap, &module, &[ExternVal::Global(g)], prepared(&module)).ok().unwrap());
    assert_eq!(heap.module(a).global_by_index(0), heap.module(b).global_by_index(0));
}

fn labels_of(module: &Module) -> Result<ModuleAuxData, Error> {
    prepared(module).validation
}

#[test]
fn tables_are_created_and_then_memories() {
    let mut heap = Heap::new();
    let mut module = empty_module();
    module.tables = vec![TableType { limits: limits(1, None) }, TableType { limits: limits(2, Some(3)) }];
    module.memories = vec![MemoryType { limits: limits(4, None) }];
    let mut preparation = Preparation::begin(&module, &[], labels_of(&module));
    assert_eq!(preparation.pending(), Some(Creation::Table(TableType { limits: limits(1, None) })));
    preparation.created_table(Ok(TableInstance { handle: 10, limits: limits(1, None) }));
    assert_eq!(preparation.pending(), Some(Creation::Table(TableType { limits: limits(2, Some(3)) })));
    preparation.created_table(Ok(TableInstance { handle: 11, limits: limits(2, Some(3)) }));
    assert_eq!(preparation.pending(), Some(Creation::Memory(MemoryType { limits: limits(4, None) })));
    preparation.created_memory(Ok(MemoryInstance { handle: 12, limits: limits(4, None) }));
    assert_eq!(preparation.pending(), None);
    let p = preparation.finish();
    let id = finish(instantiate(&mut heap, &module, &[], p).ok().unwrap());
    assert_eq!(heap.module(id).table_by_index(0).unwrap().handle, 10);
    assert_eq!(heap.module(id).table_by_index(1).unwrap().handle, 11);
    assert_eq!(heap.module(id).memory_by_index(0).unwrap().handle, 12);
}

#[test]
fn nothing_is_created_for_a_refused_module() {
    let mut heap = Heap::new();
    let module = full_module();
    let preparation = Preparation::begin(&module, &[], labels_of(&module));
    assert_eq!(preparation.pending(), None);
    let e = refusal(&mut heap, &module, &[], preparation.finish());
    assert_eq!(initialization_message(e), "extern_vals length is not equal to import section entries");

    let preparation = Preparation::begin(&module, &[], Err(Error::Validation("no".to_string())));
    assert_eq!(preparation.pending(), None);
    assert!(matches!(refusal(&mut heap, &module, &[], preparation.finish()), Error::Validation(_)));
}

#[test]
fn nothing_is_created_after_a_failure() {
    let mut heap = Heap::new();
    let mut module = empty_module();
    module.tables = vec![TableType { limits: limits(1, None) }, TableType { limits: limits(2, None) }];
    module.memories = vec![MemoryType { limits: limits(4, None) }, MemoryType { limits: limits(5, None) }];
    let mut preparation = Preparation::begin(&module, &[], labels_of(&module));
    preparation.created_table(Err(Error::Engine("table".to_string())));
    assert_eq!(preparation.pending(), None);
    let p = preparation.finish();
    assert_eq!((p.tables.len(), p.memories.len()), (1, 0));
    assert!(matches!(refusal(&mut heap, &module, &[], p), Error::Engine(message) if message == "table"));

    let mut preparation = Preparation::begin(&module, &[], labels_of(&module));
    preparation.created_table(Ok(TableInstance { handle: 1, limits: limits(1, None) }));
    preparation.created_table(Ok(TableInstance { handle: 2, limits: limits(2, None) }));
    preparation.created_memory(Err(Error::Engine("memory".to_string())));
    assert_eq!(preparation.pending(), None);
    let p = preparation.finish();
    assert_eq!((p.tables.len(), p.memories.len()), (2, 1));
    assert!(matches!(refusal(&mut heap, &module, &[], p), Error::Engine(message) if message == "memory"));
}
