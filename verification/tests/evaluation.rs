use qsc_partial_eval::classical::{ClassicalReply, ClassicalRequest, ClassicalTarget};
use qsc_partial_eval::error::{EvalError, Error, Fault, Stop};
use qsc_partial_eval::evaluator::Outcome;
use qsc_partial_eval::fir::{
    self, BinOp, Block, CallableDecl, CallableImpl, ExecGraphRange, Expr, ExprKind, FunctorApp,
    Global, Ident, ItemId, Package, PackageStore, Pat, PatKind, Prim, Res, Span, SpecDecl,
    Specializations, Stmt, StmtKind, StoreItemId,
};
use qsc_partial_eval::index_map::IndexMap;
use qsc_partial_eval::partially_evaluate;
use qsc_partial_eval::rca::{
    ComputeKind, PackageComputeProperties, PackageStoreComputeProperties,
};
use qsc_partial_eval::rir::{
    Callable, CallableType, ConditionCode, Instruction, Literal, Operand, Program, Ty, Variable,
};
use qsc_partial_eval::value::{DoubleBits, HeldValue, MeasurementResult, Qubit, Value};

const LIMIT: usize = 100;
const NO_FUNCTORS: FunctorApp = FunctorApp { adjoint: false, controlled: 0 };

/// Builds a store with a single package, and what the analysis says of it.
struct Builder {
    package: Package,
    kinds: PackageComputeProperties,
    exprs: u32,
    stmts: u32,
    pats: u32,
    blocks: u32,
    items: usize,
}

fn bool_ty() -> fir::Ty {
    fir::Ty::Prim(Prim::Bool)
}

fn unit_ty() -> fir::Ty {
    fir::Ty::Tuple(Vec::new())
}

fn expr_span(id: u32) -> Span {
    Span { lo: 10 * id, hi: 10 * id + 5 }
}

fn expr_range(id: u32) -> ExecGraphRange {
    ExecGraphRange { start: id as usize, end: id as usize + 1 }
}

impl Builder {
    fn new() -> Builder {
        Builder {
            package: Package {
                entry: None,
                entry_exec_graph: 1000,
                items: IndexMap::new(),
                blocks: IndexMap::new(),
                exprs: IndexMap::new(),
                pats: IndexMap::new(),
                stmts: IndexMap::new(),
            },
            kinds: PackageComputeProperties { exprs: IndexMap::new(), stmts: IndexMap::new() },
            exprs: 0,
            stmts: 0,
            pats: 0,
            blocks: 0,
            items: 0,
        }
    }

    fn add_expr(&mut self, ty: fir::Ty, kind: ExprKind, compute_kind: ComputeKind) -> u32 {
        let id = self.exprs;
        self.exprs += 1;
        self.package.exprs.insert(
            id as usize,
            Expr { span: expr_span(id), ty, kind, exec_graph_range: expr_range(id) },
        );
        self.kinds.exprs.insert(id as usize, compute_kind);
        id
    }

    fn expr(&mut self, kind: ExprKind) -> u32 {
        self.add_expr(unit_ty(), kind, ComputeKind::Quantum)
    }

    fn typed(&mut self, ty: fir::Ty, kind: ExprKind) -> u32 {
        self.add_expr(ty, kind, ComputeKind::Quantum)
    }

    /// An expression that the classical evaluator computes.
    fn classical(&mut self) -> u32 {
        self.add_expr(bool_ty(), ExprKind::Lit, ComputeKind::Classical)
    }

    fn item(&mut self, item: usize) -> u32 {
        self.expr(ExprKind::Var(Res::Item(ItemId { package: None, item })))
    }

    fn local(&mut self, id: u32) -> u32 {
        self.expr(ExprKind::Var(Res::Local(id)))
    }

    fn call(&mut self, item: usize, args: Vec<u32>) -> u32 {
        let callee = self.item(item);
        let args = self.expr(ExprKind::Tuple(args));
        self.expr(ExprKind::Call(callee, args))
    }

    fn call_one(&mut self, item: usize, arg: u32) -> u32 {
        let callee = self.item(item);
        self.expr(ExprKind::Call(callee, arg))
    }

    fn add_stmt(&mut self, kind: StmtKind, compute_kind: ComputeKind) -> u32 {
        let id = self.stmts;
        self.stmts += 1;
        self.package.stmts.insert(
            id as usize,
            Stmt {
                kind,
                exec_graph_range: ExecGraphRange {
                    start: 500 + id as usize,
                    end: 501 + id as usize,
                },
            },
        );
        self.kinds.stmts.insert(id as usize, compute_kind);
        id
    }

    fn semi(&mut self, expr: u32) -> u32 {
        self.add_stmt(StmtKind::Semi(expr), ComputeKind::Quantum)
    }

    fn bind_pat(&mut self, var: u32) -> u32 {
        self.pat(PatKind::Bind(Ident {
            id: var,
            span: Span { lo: 0, hi: 0 },
            name: "x".to_string(),
        }))
    }

    fn pat(&mut self, kind: PatKind) -> u32 {
        let id = self.pats;
        self.pats += 1;
        self.package.pats.insert(id as usize, Pat { kind });
        id
    }

    fn let_var(&mut self, var: u32, expr: u32) -> u32 {
        let pat = self.bind_pat(var);
        self.add_stmt(StmtKind::Local(pat, expr), ComputeKind::Quantum)
    }

    fn block(&mut self, stmts: Vec<u32>) -> u32 {
        let id = self.blocks;
        self.blocks += 1;
        self.package.blocks.insert(id as usize, Block { stmts });
        id
    }

    fn add_item(&mut self, global: Global) -> usize {
        let id = self.items;
        self.items += 1;
        self.package.items.insert(id, global);
        id
    }

    fn intrinsic_with(&mut self, name: &str, params: Vec<fir::Ty>, output: fir::Ty) -> usize {
        self.add_item(Global::Callable(CallableDecl {
            name: Ident { id: 0, span: Span { lo: 1, hi: 2 }, name: name.to_string() },
            input_params: params,
            output,
            implementation: CallableImpl::Intrinsic,
        }))
    }

    fn intrinsic(&mut self, name: &str) -> usize {
        self.intrinsic_with(name, vec![fir::Ty::Prim(Prim::Qubit)], unit_ty())
    }

    fn callable_with(&mut self, name: &str, specializations: Specializations) -> usize {
        self.add_item(Global::Callable(CallableDecl {
            name: Ident { id: 0, span: Span { lo: 70, hi: 77 }, name: name.to_string() },
            input_params: Vec::new(),
            output: unit_ty(),
            implementation: CallableImpl::Spec(specializations),
        }))
    }

    fn callable(&mut self, name: &str, stmts: Vec<u32>) -> usize {
        let block = self.block(stmts);
        let body = SpecDecl { block, exec_graph: 2000 + block as usize };
        self.callable_with(
            name,
            Specializations { body, adj: None, ctl: None, ctl_adj: None },
        )
    }

    /// Makes the entry expression a call of a callable with the given statements.
    fn main(mut self, stmts: Vec<u32>) -> Inputs {
        let main = self.callable("Main", stmts);
        let entry = self.call(main, Vec::new());
        self.entry(entry)
    }

    fn entry(mut self, entry: u32) -> Inputs {
        self.package.entry = Some(entry);
        self.finish()
    }

    fn finish(self) -> Inputs {
        let mut packages = IndexMap::new();
        packages.insert(0, self.package);
        let mut kinds = IndexMap::new();
        kinds.insert(0, self.kinds);
        Inputs {
            store: PackageStore { packages },
            properties: PackageStoreComputeProperties { packages: kinds },
        }
    }
}

struct Inputs {
    store: PackageStore,
    properties: PackageStoreComputeProperties,
}

impl Inputs {
    fn run(&self, replies: Vec<ClassicalReply>) -> Outcome {
        self.run_with_limit(replies, LIMIT)
    }

    fn run_with_limit(&self, replies: Vec<ClassicalReply>, limit: usize) -> Outcome {
        partially_evaluate(0, &self.store, &self.properties, &replies, limit)
    }

    fn program(&self, replies: Vec<ClassicalReply>) -> Program {
        match self.run(replies) {
            Outcome::Complete(program) => program,
            other => panic!("expected a program, got {other:?}"),
        }
    }

    fn error(&self, replies: Vec<ClassicalReply>) -> Error {
        match self.run(replies) {
            Outcome::Failed(error) => error,
            other => panic!("expected an error, got {other:?}"),
        }
    }

    fn stop(&self, replies: Vec<ClassicalReply>) -> Stop {
        match self.run(replies) {
            Outcome::Stopped(stop) => stop,
            other => panic!("expected a stop, got {other:?}"),
        }
    }

    fn fault(&self, replies: Vec<ClassicalReply>) -> Fault {
        match self.stop(replies) {
            Stop::Fault(fault) => fault,
            other => panic!("expected a fault, got {other:?}"),
        }
    }

    fn request(&self, replies: Vec<ClassicalReply>) -> ClassicalRequest {
        match self.stop(replies) {
            Stop::Pending(request) => request,
            other => panic!("expected a request, got {other:?}"),
        }
    }
}

fn returned(value: Value) -> ClassicalReply {
    ClassicalReply::Returned(value)
}

fn failed(message: &str) -> ClassicalReply {
    ClassicalReply::Failed(EvalError { message: message.to_string() })
}

fn instructions(program: &Program) -> &Vec<Instruction> {
    let entry = program.callables.get(program.entry as usize).unwrap();
    &program.blocks.get(entry.body.unwrap() as usize).unwrap().0
}

fn callable(program: &Program, id: usize) -> &Callable {
    program.callables.get(id).unwrap()
}

fn qubit(id: u32) -> Operand {
    Operand::Literal(Literal::Qubit(id))
}

fn result(id: u32) -> Operand {
    Operand::Literal(Literal::Result(id))
}

fn boolean(value: bool) -> Operand {
    Operand::Literal(Literal::Bool(value))
}

fn bool_var(variable_id: u32) -> Variable {
    Variable { variable_id, ty: Ty::Boolean }
}

fn call(id: u32, args: Vec<Operand>) -> Instruction {
    Instruction::Call(id, args, None)
}

#[test]
fn classical_entry_generates_only_a_return() {
    let mut b = Builder::new();
    let entry = b.classical();
    let inputs = b.entry(entry);
    assert_eq!(
        inputs.request(vec![]),
        ClassicalRequest {
            scope: 0,
            package: 0,
            exec_graph: 1000,
            range: expr_range(entry),
            target: ClassicalTarget::Expr(entry),
        }
    );
    let program = inputs.program(vec![returned(Value::Int(42))]);
    assert_eq!(*instructions(&program), vec![Instruction::Return]);
    assert_eq!(program.entry, 0);
    let main = callable(&program, 0);
    assert_eq!(main.name, "main");
    assert_eq!(main.input_type, Vec::new());
    assert_eq!(main.output_type, None);
    assert_eq!(main.body, Some(0));
    assert_eq!(main.call_type, CallableType::Regular);
    assert!(program.callables.get(1).is_none());
    assert!(program.blocks.get(1).is_none());
}

#[test]
fn measurement_is_read_before_it_is_compared() {
    let mut b = Builder::new();
    let allocate = b.intrinsic_with(
        "__quantum__rt__qubit_allocate",
        vec![],
        fir::Ty::Prim(Prim::Qubit),
    );
    let release = b.intrinsic("__quantum__rt__qubit_release");
    let h = b.intrinsic("__quantum__qis__h__body");
    let m = b.intrinsic_with(
        "__quantum__qis__m__body",
        vec![fir::Ty::Prim(Prim::Qubit)],
        fir::Ty::Prim(Prim::Result),
    );
    let new_qubit = b.call(allocate, vec![]);
    let s0 = b.let_var(0, new_qubit);
    let q = b.local(0);
    let e1 = b.call_one(h, q);
    let s1 = b.semi(e1);
    let q = b.local(0);
    let e2 = b.call_one(m, q);
    let s2 = b.let_var(1, e2);
    let r = b.local(1);
    let one = b.classical();
    let e3 = b.typed(bool_ty(), ExprKind::BinOp(BinOp::Eq, r, one));
    let s3 = b.let_var(2, e3);
    let q = b.local(0);
    let e4 = b.call_one(release, q);
    let s4 = b.semi(e4);
    let inputs = b.main(vec![s0, s1, s2, s3, s4]);

    let program =
        inputs.program(vec![returned(Value::Result(MeasurementResult::Val(true)))]);
    assert_eq!(
        *instructions(&program),
        vec![
            call(1, vec![qubit(0)]),
            call(2, vec![qubit(0), result(0)]),
            Instruction::Call(3, vec![result(0)], Some(bool_var(0))),
            Instruction::Icmp(
                ConditionCode::Eq,
                Operand::Variable(bool_var(0)),
                boolean(true),
                bool_var(1)
            ),
            Instruction::Return,
        ]
    );
    let h = callable(&program, 1);
    assert_eq!(h.name, "__quantum__qis__h__body");
    assert_eq!(h.input_type, vec![Ty::Qubit]);
    assert_eq!(h.output_type, None);
    assert_eq!(h.body, None);
    assert_eq!(h.call_type, CallableType::Regular);
    let mz = callable(&program, 2);
    assert_eq!(mz.name, "__quantum__qis__mz__body");
    assert_eq!(mz.input_type, vec![Ty::Qubit, Ty::Result]);
    assert_eq!(mz.output_type, None);
    assert_eq!(mz.call_type, CallableType::Measurement);
    let read = callable(&program, 3);
    assert_eq!(read.name, "__quantum__rt__read_result__body");
    assert_eq!(read.input_type, vec![Ty::Result]);
    assert_eq!(read.output_type, Some(Ty::Boolean));
    assert_eq!(read.call_type, CallableType::Readout);
    assert!(program.callables.get(4).is_none());
}

#[test]
fn inequality_compares_two_measurements() {
    let mut b = Builder::new();
    let m = b.intrinsic("__quantum__qis__mresetz__body");
    let q0 = b.classical();
    let m0 = b.call_one(m, q0);
    let q1 = b.classical();
    let m1 = b.call_one(m, q1);
    let e = b.typed(bool_ty(), ExprKind::BinOp(BinOp::Neq, m0, m1));
    let inputs = b.entry(e);
    let program = inputs.program(vec![
        returned(Value::Qubit(Qubit(4))),
        returned(Value::Qubit(Qubit(7))),
    ]);
    assert_eq!(
        *instructions(&program),
        vec![
            call(1, vec![qubit(4), result(0)]),
            call(1, vec![qubit(7), result(1)]),
            Instruction::Call(2, vec![result(0)], Some(bool_var(0))),
            Instruction::Call(2, vec![result(1)], Some(bool_var(1))),
            Instruction::Icmp(
                ConditionCode::Ne,
                Operand::Variable(bool_var(0)),
                Operand::Variable(bool_var(1)),
                bool_var(2)
            ),
            Instruction::Return,
        ]
    );
    assert_eq!(callable(&program, 1).name, "__quantum__qis__mresetz__body");
    assert_eq!(callable(&program, 1).call_type, CallableType::Measurement);
}

#[test]
fn released_qubits_are_used_again() {
    let mut b = Builder::new();
    let allocate = b.intrinsic("__quantum__rt__qubit_allocate");
    let release = b.intrinsic("__quantum__rt__qubit_release");
    let x = b.intrinsic("__quantum__qis__x__body");
    let mut stmts = Vec::new();
    for var in 0..2 {
        let e = b.call(allocate, vec![]);
        stmts.push(b.let_var(var, e));
    }
    let q = b.local(0);
    let e = b.call_one(release, q);
    stmts.push(b.semi(e));
    for var in 2..4 {
        let e = b.call(allocate, vec![]);
        stmts.push(b.let_var(var, e));
    }
    for var in 1..4 {
        let q = b.local(var);
        let e = b.call_one(x, q);
        stmts.push(b.semi(e));
    }
    let inputs = b.main(stmts);
    assert_eq!(
        *instructions(&inputs.program(vec![])),
        vec![
            call(1, vec![qubit(1)]),
            call(1, vec![qubit(0)]),
            call(1, vec![qubit(2)]),
            Instruction::Return,
        ]
    );
}

#[test]
fn callables_are_added_once() {
    let mut b = Builder::new();
    let first = b.intrinsic("__quantum__qis__x__body");
    let second = b.intrinsic("__quantum__qis__x__body");
    let q = b.classical();
    let e0 = b.call_one(first, q);
    let s0 = b.semi(e0);
    let q = b.classical();
    let e1 = b.call_one(second, q);
    let s1 = b.semi(e1);
    let inputs = b.main(vec![s0, s1]);
    let program = inputs.program(vec![
        returned(Value::Qubit(Qubit(0))),
        returned(Value::Qubit(Qubit(1))),
    ]);
    assert_eq!(
        *instructions(&program),
        vec![call(1, vec![qubit(0)]), call(1, vec![qubit(1)]), Instruction::Return]
    );
    assert!(program.callables.get(2).is_none());
}

#[test]
fn intrinsic_named_like_the_entry_callable_is_a_callable_of_its_own() {
    let mut b = Builder::new();
    let f = b.intrinsic_with("main", vec![], unit_ty());
    let e = b.call(f, vec![]);
    let inputs = b.entry(e);
    let program = inputs.program(vec![]);
    assert_eq!(*instructions(&program), vec![call(1, vec![]), Instruction::Return]);
    assert_eq!(callable(&program, 0).name, "main");
    assert_eq!(callable(&program, 1).name, "main");
}

#[test]
fn call_operands_follow_the_argument_tuple() {
    let mut b = Builder::new();
    let f = b.intrinsic_with(
        "f",
        vec![
            fir::Ty::Prim(Prim::Double),
            fir::Ty::Prim(Prim::Int),
            fir::Ty::Prim(Prim::Bool),
            fir::Ty::Prim(Prim::Result),
            fir::Ty::Prim(Prim::Qubit),
        ],
        fir::Ty::Prim(Prim::Int),
    );
    let args = b.classical();
    let e = b.call_one(f, args);
    let inputs = b.entry(e);
    let bits = DoubleBits(1.5f64.to_bits());
    let program = inputs.program(vec![returned(Value::Tuple(vec![
        Value::Double(bits),
        Value::Int(-3),
        Value::Bool(true),
        Value::Result(MeasurementResult::Id(9)),
        Value::Qubit(Qubit(2)),
    ]))]);
    assert_eq!(
        *instructions(&program),
        vec![
            call(
                1,
                vec![
                    Operand::Literal(Literal::Double(bits)),
                    Operand::Literal(Literal::Integer(-3)),
                    boolean(true),
                    result(9),
                    qubit(2),
                ]
            ),
            Instruction::Return,
        ]
    );
    let f = callable(&program, 1);
    assert_eq!(
        f.input_type,
        vec![Ty::Double, Ty::Integer, Ty::Boolean, Ty::Result, Ty::Qubit]
    );
    assert_eq!(f.output_type, Some(Ty::Integer));
}

#[test]
fn reset_has_a_call_type_of_its_own() {
    let mut b = Builder::new();
    let reset = b.intrinsic("__quantum__qis__reset__body");
    let q = b.classical();
    let e = b.call_one(reset, q);
    let inputs = b.entry(e);
    let program = inputs.program(vec![returned(Value::Qubit(Qubit(0)))]);
    assert_eq!(callable(&program, 1).call_type, CallableType::Reset);
}

#[test]
fn requests_name_the_call_and_its_graph() {
    let mut b = Builder::new();
    let s_inner = b.add_stmt(StmtKind::Item(0), ComputeKind::Classical);
    let inner = b.callable("Inner", vec![s_inner]);
    let e1 = b.call(inner, vec![]);
    let s1 = b.semi(e1);
    let e2 = b.call(inner, vec![]);
    let s2 = b.semi(e2);
    let c = b.classical();
    let s3 = b.semi(c);
    let inputs = b.main(vec![s1, s2, s3]);
    let inner_range = ExecGraphRange { start: 500 + s_inner as usize, end: 501 + s_inner as usize };
    let first = inputs.request(vec![]);
    assert_eq!(
        first,
        ClassicalRequest {
            scope: 2,
            package: 0,
            exec_graph: 2000,
            range: inner_range,
            target: ClassicalTarget::Stmt(s_inner),
        }
    );
    // The second call of the same callable is another call.
    let second = inputs.request(vec![returned(Value::unit())]);
    assert_eq!(second, ClassicalRequest { scope: 3, ..first });
    // The statement behind the calls belongs to the caller again.
    let third = inputs.request(vec![returned(Value::unit()), ClassicalReply::Interrupted]);
    assert_eq!(
        third,
        ClassicalRequest {
            scope: 1,
            package: 0,
            exec_graph: 2001,
            range: expr_range(c),
            target: ClassicalTarget::Expr(c),
        }
    );
    let program = inputs.program(vec![
        returned(Value::unit()),
        returned(Value::unit()),
        returned(Value::Bool(false)),
    ]);
    assert_eq!(*instructions(&program), vec![Instruction::Return]);
}

#[test]
fn functors_select_the_specialization() {
    let cases = [
        (NO_FUNCTORS, 10),
        (FunctorApp { adjoint: true, controlled: 0 }, 11),
        (FunctorApp { adjoint: false, controlled: 1 }, 12),
        (FunctorApp { adjoint: true, controlled: 2 }, 13),
    ];
    for (functors, graph) in cases {
        let mut b = Builder::new();
        let mut decls = Vec::new();
        for exec_graph in 10..14 {
            let s = b.add_stmt(StmtKind::Item(0), ComputeKind::Classical);
            let block = b.block(vec![s]);
            decls.push(SpecDecl { block, exec_graph });
        }
        let f = b.callable_with(
            "F",
            Specializations {
                body: decls[0],
                adj: Some(decls[1]),
                ctl: Some(decls[2]),
                ctl_adj: Some(decls[3]),
            },
        );
        let callee = b.classical();
        let args = b.expr(ExprKind::Tuple(vec![]));
        let e = b.expr(ExprKind::Call(callee, args));
        let inputs = b.entry(e);
        let id = StoreItemId { package: 0, item: f };
        let request = inputs.request(vec![returned(Value::Global(id, functors))]);
        assert_eq!(request.exec_graph, graph);
        assert_eq!(request.target, ClassicalTarget::Stmt((graph - 10) as u32));
    }
}

#[test]
fn missing_specializations_are_faults() {
    let cases = [
        (FunctorApp { adjoint: true, controlled: 0 }, Fault::MissingAdjoint),
        (FunctorApp { adjoint: false, controlled: 1 }, Fault::MissingControlled),
        (FunctorApp { adjoint: true, controlled: 1 }, Fault::MissingControlledAdjoint),
    ];
    for (functors, fault) in cases {
        let mut b = Builder::new();
        let f = b.callable("F", vec![]);
        let callee = b.classical();
        let args = b.expr(ExprKind::Tuple(vec![]));
        let e = b.expr(ExprKind::Call(callee, args));
        let inputs = b.entry(e);
        let id = StoreItemId { package: 0, item: f };
        assert_eq!(inputs.fault(vec![returned(Value::Global(id, functors))]), fault);
    }
}

#[test]
fn items_of_other_packages_are_found() {
    let mut b = Builder::new();
    let callee = b.expr(ExprKind::Var(Res::Item(ItemId { package: Some(1), item: 0 })));
    let args = b.expr(ExprKind::Tuple(vec![]));
    let e = b.expr(ExprKind::Call(callee, args));
    let mut inputs = b.entry(e);
    let mut other = Builder::new();
    let s = other.add_stmt(StmtKind::Item(0), ComputeKind::Classical);
    other.callable("Other", vec![s]);
    let other = other.finish();
    let mut kinds = PackageComputeProperties { exprs: IndexMap::new(), stmts: IndexMap::new() };
    kinds.stmts.insert(s as usize, ComputeKind::Classical);
    inputs.properties.packages.insert(1, kinds);
    let mut package = Builder::new().package;
    package.items.insert(
        0,
        Global::Callable(CallableDecl {
            name: Ident { id: 0, span: Span { lo: 0, hi: 0 }, name: "Other".to_string() },
            input_params: vec![],
            output: unit_ty(),
            implementation: CallableImpl::Spec(Specializations {
                body: SpecDecl { block: 0, exec_graph: 77 },
                adj: None,
                ctl: None,
                ctl_adj: None,
            }),
        }),
    );
    package.blocks.insert(0, Block { stmts: vec![s] });
    package.stmts.insert(
        s as usize,
        Stmt { kind: StmtKind::Item(0), exec_graph_range: ExecGraphRange { start: 3, end: 4 } },
    );
    inputs.store.packages.insert(1, package);
    assert!(other.store.packages.get(1).is_none());
    assert_eq!(
        inputs.request(vec![]),
        ClassicalRequest {
            scope: 1,
            package: 1,
            exec_graph: 77,
            range: ExecGraphRange { start: 3, end: 4 },
            target: ClassicalTarget::Stmt(s),
        }
    );
}

#[test]
fn tuple_patterns_bind_element_by_element() {
    let mut b = Builder::new();
    let x = b.intrinsic("x");
    let c0 = b.classical();
    let c1 = b.classical();
    let c2 = b.classical();
    let inner = b.expr(ExprKind::Tuple(vec![c1, c2]));
    let tuple = b.expr(ExprKind::Tuple(vec![c0, inner]));
    let p0 = b.bind_pat(0);
    let p1 = b.pat(PatKind::Discard);
    let p2 = b.bind_pat(2);
    let inner_pat = b.pat(PatKind::Tuple(vec![p1, p2]));
    let pat = b.pat(PatKind::Tuple(vec![p0, inner_pat]));
    let s0 = b.add_stmt(StmtKind::Local(pat, tuple), ComputeKind::Quantum);
    let v0 = b.local(0);
    let e1 = b.call_one(x, v0);
    let s1 = b.semi(e1);
    let v2 = b.local(2);
    let e2 = b.call_one(x, v2);
    let s2 = b.semi(e2);
    let replies = || {
        vec![
            returned(Value::Qubit(Qubit(5))),
            returned(Value::Held(HeldValue(1))),
            returned(Value::Qubit(Qubit(6))),
        ]
    };
    let inputs = b.main(vec![s0, s1, s2]);
    assert_eq!(
        *instructions(&inputs.program(replies())),
        vec![call(1, vec![qubit(5)]), call(1, vec![qubit(6)]), Instruction::Return]
    );
}

#[test]
fn binding_faults() {
    // A tuple pattern of another length.
    let mut b = Builder::new();
    let tuple = b.expr(ExprKind::Tuple(vec![]));
    let p = b.bind_pat(0);
    let pat = b.pat(PatKind::Tuple(vec![p]));
    let s = b.add_stmt(StmtKind::Local(pat, tuple), ComputeKind::Quantum);
    assert_eq!(b.main(vec![s]).fault(vec![]), Fault::TupleLengthMismatch);

    // A tuple pattern on an expression that is no tuple.
    let mut b = Builder::new();
    let e = b.classical();
    let pat = b.pat(PatKind::Tuple(vec![]));
    let s = b.add_stmt(StmtKind::Local(pat, e), ComputeKind::Quantum);
    assert_eq!(
        b.main(vec![s]).fault(vec![returned(Value::unit())]),
        Fault::NotATupleExpression
    );

    // The expression failed, so there is no value to bind.
    let mut b = Builder::new();
    let e = b.expr(ExprKind::If);
    let s = b.let_var(0, e);
    assert_eq!(b.main(vec![s]).fault(vec![]), Fault::MissingExprValue);

    // A pattern that discards needs no value: the error is reported.
    let mut b = Builder::new();
    let e = b.expr(ExprKind::If);
    let pat = b.pat(PatKind::Discard);
    let s = b.add_stmt(StmtKind::Local(pat, e), ComputeKind::Quantum);
    assert_eq!(
        b.main(vec![s]).error(vec![]),
        Error::Unimplemented("If Expr".to_string(), expr_span(e))
    );

    let mut b = Builder::new();
    let e = b.classical();
    let s = b.add_stmt(StmtKind::Local(99, e), ComputeKind::Quantum);
    assert_eq!(b.main(vec![s]).fault(vec![returned(Value::unit())]), Fault::MissingPat);
}

#[test]
fn classical_failures_are_errors() {
    let mut b = Builder::new();
    let entry = b.classical();
    let inputs = b.entry(entry);
    assert_eq!(
        inputs.error(vec![failed("division by zero")]),
        Error::EvaluationFailed(EvalError { message: "division by zero".to_string() })
    );
    assert_eq!(inputs.fault(vec![ClassicalReply::Interrupted]), Fault::NoValueReturned);
}

#[test]
fn the_first_error_is_reported() {
    let mut b = Builder::new();
    let s = b.add_stmt(StmtKind::Item(0), ComputeKind::Classical);
    let e = b.expr(ExprKind::While);
    let never = b.semi(e);
    let inner = b.callable("Inner", vec![s, never]);
    let e = b.call(inner, vec![]);
    let s = b.semi(e);
    let inputs = b.main(vec![s]);
    assert_eq!(
        inputs.error(vec![failed("no")]),
        Error::EvaluationFailed(EvalError { message: "no".to_string() })
    );
}

#[test]
fn failing_operands_are_reported_by_their_cause() {
    // The left operand.
    let mut b = Builder::new();
    let lhs = b.expr(ExprKind::Array);
    let rhs = b.classical();
    let e = b.typed(bool_ty(), ExprKind::BinOp(BinOp::Eq, lhs, rhs));
    assert_eq!(
        b.entry(e).error(vec![]),
        Error::Unimplemented("Array Expr".to_string(), expr_span(lhs))
    );

    // The right operand.
    let mut b = Builder::new();
    let lhs = b.classical();
    let rhs = b.expr(ExprKind::Index);
    let e = b.typed(bool_ty(), ExprKind::BinOp(BinOp::Eq, lhs, rhs));
    assert_eq!(
        b.entry(e).error(vec![returned(Value::Bool(true))]),
        Error::Unimplemented("Index Expr".to_string(), expr_span(rhs))
    );

    // The callee.
    let mut b = Builder::new();
    let callee = b.expr(ExprKind::Field);
    let args = b.expr(ExprKind::Tuple(vec![]));
    let e = b.expr(ExprKind::Call(callee, args));
    assert_eq!(
        b.entry(e).error(vec![]),
        Error::Unimplemented("Field Expr".to_string(), expr_span(callee))
    );

    // The argument.
    let mut b = Builder::new();
    let f = b.intrinsic("f");
    let arg = b.expr(ExprKind::Return);
    let e = b.call_one(f, arg);
    assert_eq!(
        b.entry(e).error(vec![]),
        Error::Unimplemented("Return Expr".to_string(), expr_span(arg))
    );

    // An element of a tuple.
    let mut b = Builder::new();
    let first = b.classical();
    let second = b.expr(ExprKind::Block);
    let e = b.expr(ExprKind::Tuple(vec![first, second]));
    assert_eq!(
        b.entry(e).error(vec![returned(Value::unit())]),
        Error::Unimplemented("Block Expr".to_string(), expr_span(second))
    );
}

#[test]
fn kinds_without_instructions_are_errors_or_faults() {
    let unimplemented = vec![
        (ExprKind::Array, "Array Expr"),
        (ExprKind::ArrayLit, "Array Lit"),
        (ExprKind::ArrayRepeat, "Array Repeat"),
        (ExprKind::Assign, "Assignment Expr"),
        (ExprKind::AssignField, "Field Assignment Expr"),
        (ExprKind::AssignIndex, "Assignment Index Expr"),
        (ExprKind::AssignOp, "Assignment Op Expr"),
        (ExprKind::Block, "Block Expr"),
        (ExprKind::Field, "Field Expr"),
        (ExprKind::If, "If Expr"),
        (ExprKind::Index, "Index Expr"),
        (ExprKind::Return, "Return Expr"),
        (ExprKind::UnOp, "Unary Expr"),
        (ExprKind::UpdateField, "Updated Field Expr"),
        (ExprKind::UpdateIndex, "Update Index Expr"),
        (ExprKind::While, "While Expr"),
    ];
    for (kind, text) in unimplemented {
        let mut b = Builder::new();
        let e = b.expr(kind);
        assert_eq!(
            b.entry(e).error(vec![]),
            Error::Unimplemented(text.to_string(), expr_span(e))
        );
    }
    let faults = vec![
        (ExprKind::Closure, Fault::ClosureExpression),
        (ExprKind::Fail, Fault::FailExpression),
        (ExprKind::Hole, Fault::HoleExpression),
        (ExprKind::Lit, Fault::LiteralExpression),
        (ExprKind::Range, Fault::RangeExpression),
        (ExprKind::String, Fault::StringExpression),
        (ExprKind::Var(Res::Unresolved), Fault::UnresolvedName),
        (ExprKind::Var(Res::Local(3)), Fault::MissingLocalVar),
    ];
    for (kind, fault) in faults {
        let mut b = Builder::new();
        let e = b.expr(kind);
        assert_eq!(b.entry(e).fault(vec![]), fault);
    }
}

#[test]
fn operators_other_than_comparisons_are_not_implemented() {
    let ops = [
        (BinOp::Add, "BinOp Expr (Add)"),
        (BinOp::AndB, "BinOp Expr (AndB)"),
        (BinOp::AndL, "BinOp Expr (AndL)"),
        (BinOp::Div, "BinOp Expr (Div)"),
        (BinOp::Exp, "BinOp Expr (Exp)"),
        (BinOp::Gt, "BinOp Expr (Gt)"),
        (BinOp::Gte, "BinOp Expr (Gte)"),
        (BinOp::Lt, "BinOp Expr (Lt)"),
        (BinOp::Lte, "BinOp Expr (Lte)"),
        (BinOp::Mod, "BinOp Expr (Mod)"),
        (BinOp::Mul, "BinOp Expr (Mul)"),
        (BinOp::OrB, "BinOp Expr (OrB)"),
        (BinOp::OrL, "BinOp Expr (OrL)"),
        (BinOp::Shl, "BinOp Expr (Shl)"),
        (BinOp::Shr, "BinOp Expr (Shr)"),
        (BinOp::Sub, "BinOp Expr (Sub)"),
        (BinOp::XorB, "BinOp Expr (XorB)"),
    ];
    for (op, text) in ops {
        assert_eq!(text, format!("BinOp Expr ({op:?})"));
        let mut b = Builder::new();
        let lhs = b.classical();
        let rhs = b.classical();
        let e = b.typed(fir::Ty::Prim(Prim::Int), ExprKind::BinOp(op, lhs, rhs));
        assert_eq!(
            b.entry(e).error(vec![returned(Value::Int(1)), returned(Value::Int(2))]),
            Error::Unimplemented(text.to_string(), expr_span(e))
        );
    }
}

#[test]
fn comparison_of_known_values_needs_no_read() {
    let mut b = Builder::new();
    let lhs = b.classical();
    let rhs = b.classical();
    let e = b.typed(bool_ty(), ExprKind::BinOp(BinOp::Eq, lhs, rhs));
    let inputs = b.entry(e);
    let program = inputs.program(vec![returned(Value::Int(1)), returned(Value::Bool(false))]);
    assert_eq!(
        *instructions(&program),
        vec![
            Instruction::Icmp(
                ConditionCode::Eq,
                Operand::Literal(Literal::Integer(1)),
                boolean(false),
                bool_var(0)
            ),
            Instruction::Return,
        ]
    );
    // A comparison yields a variable, which no operand of a further comparison can hold.
    let mut b = Builder::new();
    let c0 = b.classical();
    let c1 = b.classical();
    let inner = b.typed(bool_ty(), ExprKind::BinOp(BinOp::Eq, c0, c1));
    let c2 = b.classical();
    let outer = b.typed(bool_ty(), ExprKind::BinOp(BinOp::Eq, inner, c2));
    assert_eq!(
        b.entry(outer).fault(vec![
            returned(Value::Int(1)),
            returned(Value::Int(1)),
            returned(Value::Bool(true)),
        ]),
        Fault::UnmappableValue
    );
}

#[test]
fn calls_of_wrong_things_are_faults() {
    let mut b = Builder::new();
    let udt = b.add_item(Global::Udt);
    let e = b.call(udt, vec![]);
    assert_eq!(b.entry(e).fault(vec![]), Fault::GlobalNotCallable);

    let mut b = Builder::new();
    let e = b.call(9, vec![]);
    assert_eq!(b.entry(e).fault(vec![]), Fault::MissingGlobal);

    let mut b = Builder::new();
    let callee = b.classical();
    let args = b.expr(ExprKind::Tuple(vec![]));
    let e = b.expr(ExprKind::Call(callee, args));
    assert_eq!(b.entry(e).fault(vec![returned(Value::Int(0))]), Fault::CalleeNotGlobal);

    for (name, fault) in [
        ("__quantum__qis__m__body", Fault::MeasuredNotAQubit),
        ("__quantum__qis__mresetz__body", Fault::MeasuredNotAQubit),
        ("__quantum__rt__qubit_release", Fault::ReleasedNotAQubit),
        ("f", Fault::UnmappableValue),
    ] {
        let mut b = Builder::new();
        let f = b.intrinsic(name);
        let arg = b.classical();
        let e = b.call_one(f, arg);
        assert_eq!(b.entry(e).fault(vec![returned(Value::Held(HeldValue(0)))]), fault);
    }

    let mut b = Builder::new();
    let f = b.intrinsic("__quantum__rt__qubit_release");
    let arg = b.classical();
    let e = b.call_one(f, arg);
    assert_eq!(
        b.entry(e).fault(vec![returned(Value::Qubit(Qubit(0)))]),
        Fault::ReleasedUnknownQubit
    );
}

#[test]
fn large_identifiers_are_faults() {
    let large = u32::MAX as usize + 1;
    let mut b = Builder::new();
    let f = b.intrinsic("f");
    let arg = b.classical();
    let e = b.call_one(f, arg);
    let inputs = b.entry(e);
    assert_eq!(
        inputs.fault(vec![returned(Value::Qubit(Qubit(large)))]),
        Fault::QubitIdTooLarge
    );
    assert_eq!(
        inputs.fault(vec![returned(Value::Result(MeasurementResult::Id(large)))]),
        Fault::ResultIdTooLarge
    );
    let program = inputs.program(vec![returned(Value::Qubit(Qubit(large - 1)))]);
    assert_eq!(instructions(&program)[0], call(1, vec![qubit(u32::MAX)]));
}

#[test]
fn unsupported_types_are_faults() {
    for prim in [
        Prim::BigInt,
        Prim::Pauli,
        Prim::Range,
        Prim::RangeFrom,
        Prim::RangeFull,
        Prim::RangeTo,
        Prim::String,
    ] {
        let mut b = Builder::new();
        let f = b.intrinsic_with("f", vec![fir::Ty::Prim(prim)], unit_ty());
        let e = b.call(f, vec![]);
        assert_eq!(b.entry(e).fault(vec![]), Fault::UnsupportedPrimitiveType);
    }
    let mut b = Builder::new();
    let f = b.intrinsic_with("f", vec![], fir::Ty::Other);
    let e = b.call(f, vec![]);
    assert_eq!(b.entry(e).fault(vec![]), Fault::NotAPrimitiveType);

    // The first parameter decides.
    let mut b = Builder::new();
    let f = b.intrinsic_with("f", vec![unit_ty(), fir::Ty::Prim(Prim::String)], unit_ty());
    let e = b.call(f, vec![]);
    assert_eq!(b.entry(e).fault(vec![]), Fault::NotAPrimitiveType);

    // The type of a comparison.
    let mut b = Builder::new();
    let lhs = b.classical();
    let rhs = b.classical();
    let e = b.typed(unit_ty(), ExprKind::BinOp(BinOp::Eq, lhs, rhs));
    assert_eq!(
        b.entry(e).fault(vec![returned(Value::Int(1)), returned(Value::Int(1))]),
        Fault::NotAPrimitiveType
    );
}

#[test]
fn missing_parts_are_faults() {
    let empty = Builder::new().finish();
    assert_eq!(empty.fault(vec![]), Fault::NoEntryExpression);
    match partially_evaluate(5, &empty.store, &empty.properties, &vec![], LIMIT) {
        Outcome::Stopped(stop) => assert_eq!(stop, Stop::Fault(Fault::MissingPackage)),
        other => panic!("unexpected {other:?}"),
    }
    assert_eq!(Builder::new().entry(0).fault(vec![]), Fault::MissingComputeKind);

    let mut b = Builder::new();
    b.kinds.exprs.insert(0, ComputeKind::Quantum);
    assert_eq!(b.entry(0).fault(vec![]), Fault::MissingExpr);

    let mut b = Builder::new();
    let f = b.callable_with(
        "F",
        Specializations {
            body: SpecDecl { block: 8, exec_graph: 0 },
            adj: None,
            ctl: None,
            ctl_adj: None,
        },
    );
    let e = b.call(f, vec![]);
    assert_eq!(b.entry(e).fault(vec![]), Fault::MissingBlock);

    assert_eq!(Builder::new().main(vec![4]).fault(vec![]), Fault::MissingComputeKind);
    for kind in [ComputeKind::Classical, ComputeKind::Quantum] {
        let mut b = Builder::new();
        b.kinds.stmts.insert(4, kind);
        assert_eq!(b.main(vec![4]).fault(vec![]), Fault::MissingStmt);
    }
}

#[test]
fn statements_of_items_do_nothing() {
    let mut b = Builder::new();
    let s = b.add_stmt(StmtKind::Item(0), ComputeKind::Quantum);
    let e = b.expr(ExprKind::Tuple(vec![]));
    let t = b.add_stmt(StmtKind::Expr(e), ComputeKind::Quantum);
    assert_eq!(*instructions(&b.main(vec![s, t]).program(vec![])), vec![Instruction::Return]);
}

#[test]
fn recursion_meets_the_depth_limit() {
    let mut b = Builder::new();
    let main = 0;
    let e = b.call(main, vec![]);
    let s = b.semi(e);
    let inputs = b.main(vec![s]);
    assert_eq!(inputs.stop(vec![]), Stop::DepthLimit);
}

#[test]
fn decided_outcomes_are_kept() {
    let mut b = Builder::new();
    let x = b.intrinsic("x");
    let q = b.classical();
    let e = b.call_one(x, q);
    let inputs = b.entry(e);
    // The entry expression and its operands nest two deep.
    match inputs.run_with_limit(vec![], 1) {
        Outcome::Stopped(stop) => assert_eq!(stop, Stop::DepthLimit),
        other => panic!("unexpected {other:?}"),
    }
    let pending = inputs.request(vec![]);
    for limit in [2, 3, 50] {
        match inputs.run_with_limit(vec![], limit) {
            Outcome::Stopped(stop) => assert_eq!(stop, Stop::Pending(pending)),
            other => panic!("unexpected {other:?}"),
        }
        for extra in 0..3 {
            let mut replies = vec![returned(Value::Qubit(Qubit(3)))];
            for _ in 0..extra {
                replies.push(failed("not asked"));
            }
            match inputs.run_with_limit(replies, limit) {
                Outcome::Complete(program) => assert_eq!(
                    *instructions(&program),
                    vec![call(1, vec![qubit(3)]), Instruction::Return]
                ),
                other => panic!("unexpected {other:?}"),
            }
        }
    }
}

#[test]
fn a_failing_statement_of_a_callable_is_the_reported_cause() {
    let mut b = Builder::new();
    let e = b.expr(ExprKind::If);
    let s = b.semi(e);
    let inputs = b.main(vec![s]);
    assert_eq!(
        inputs.error(vec![]),
        Error::Unimplemented("If Expr".to_string(), expr_span(e))
    );
}

#[test]
fn statements_after_a_failure_are_not_run() {
    let mut b = Builder::new();
    let first = b.expr(ExprKind::If);
    let s0 = b.semi(first);
    let second = b.classical();
    let s1 = b.semi(second);
    // No reply is asked for, so the second statement was not reached.
    assert_eq!(
        b.main(vec![s0, s1]).error(vec![]),
        Error::Unimplemented("If Expr".to_string(), expr_span(first))
    );
}

#[test]
fn binding_keeps_locals_outside_the_pattern() {
    let mut b = Builder::new();
    let x = b.intrinsic("x");
    let mut stmts = Vec::new();
    for var in [0, 1, 0] {
        let e = b.classical();
        stmts.push(b.let_var(var, e));
    }
    for var in [0, 1] {
        let q = b.local(var);
        let e = b.call_one(x, q);
        stmts.push(b.semi(e));
    }
    let inputs = b.main(stmts);
    let program = inputs.program(vec![
        returned(Value::Qubit(Qubit(1))),
        returned(Value::Qubit(Qubit(2))),
        returned(Value::Qubit(Qubit(3))),
    ]);
    assert_eq!(
        *instructions(&program),
        vec![call(1, vec![qubit(3)]), call(1, vec![qubit(2)]), Instruction::Return]
    );
}

#[test]
fn callables_are_found_again_later() {
    let mut b = Builder::new();
    let x = b.intrinsic("x");
    let y = b.intrinsic("y");
    let mut stmts = Vec::new();
    for item in [x, y, x] {
        let q = b.classical();
        let e = b.call_one(item, q);
        stmts.push(b.semi(e));
    }
    let inputs = b.main(stmts);
    let program = inputs.program(vec![
        returned(Value::Qubit(Qubit(0))),
        returned(Value::Qubit(Qubit(0))),
        returned(Value::Qubit(Qubit(0))),
    ]);
    assert_eq!(
        *instructions(&program),
        vec![
            call(1, vec![qubit(0)]),
            call(2, vec![qubit(0)]),
            call(1, vec![qubit(0)]),
            Instruction::Return,
        ]
    );
    // Only the entry callable has a body.
    assert_eq!(callable(&program, 0).body, Some(0));
    assert_eq!(callable(&program, 1).body, None);
    assert_eq!(callable(&program, 2).body, None);
    assert!(program.callables.get(3).is_none());
}
