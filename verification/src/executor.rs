//! The interpreter: a mutable symbol table, an expression evaluator and a
//! statement executor, proved to agree with the semantics in `semantics`
//! on every program that does not read console input.
//!
//! The symbol table is an association vector with pairwise distinct names;
//! its mathematical model is the map `table_view`.  Besides writing to the
//! console, the executor keeps the full transcript of written text in a
//! field, so a host can inspect what a run produced.

use vstd::prelude::*;
use vstd::string::StringExecFns;

use crate::ast::Expression;
use crate::ast::SourceUnit;
use crate::ast::Statement;
use crate::ast::expr_reads_input;
use crate::ast::stmt_reads_input;
use crate::ast::stmts_read_input;
use crate::console::console_flush;
use crate::console::console_write;
use crate::console::read_console_line;
use crate::input::parse_input_number;
use crate::semantics::Control;
use crate::semantics::RunState;
use crate::semantics::StepResult;
use crate::semantics::sem_expr;
use crate::semantics::sem_stmt;
use crate::semantics::sem_stmts;
use crate::value::RuntimeError;
use crate::value::Value;
use crate::value::ValueView;
use crate::value::add_values;
use crate::value::divide_values;
use crate::value::equals_values;
use crate::value::eval_result_view;
use crate::value::greater_than_values;
use crate::value::less_than_values;
use crate::value::multiply_values;
use crate::value::negate_value;
use crate::value::not_equals_values;
use crate::value::render_value;
use crate::value::subtract_values;
use crate::value::to_bool;

verus! {

/// The interpreter.  One instance runs one program: the symbol table is
/// never reset between calls.
pub struct Executor {
    symbol_table: Vec<(String, Value)>,
    output: String,
}

/// The map a symbol-table vector stands for: later entries win, though
/// `distinct_keys` (kept as an invariant) makes the order immaterial.
pub open spec fn table_view(t: Seq<(String, Value)>) -> Map<Seq<char>, ValueView>
    decreases t.len(),
{
    if t.len() == 0 {
        Map::empty()
    } else {
        table_view(t.drop_last()).insert(t.last().0@, t.last().1@)
    }
}

/// No two entries bind the same name.
pub open spec fn distinct_keys(t: Seq<(String, Value)>) -> bool {
    forall|i: int, j: int| 0 <= i < j < t.len() ==> t[i].0@ != t[j].0@
}

/// A name is in the table's map exactly when some entry carries it.
proof fn lemma_table_view_contains(t: Seq<(String, Value)>, k: Seq<char>)
    ensures
        table_view(t).contains_key(k) <==> (exists|i: int|
            0 <= i < t.len() && t[i].0@ == k),
    decreases t.len(),
{
    if t.len() > 0 {
        let prev = t.drop_last();
        lemma_table_view_contains(prev, k);
        if t.last().0@ == k {
            assert(t[t.len() - 1].0@ == k);
        } else {
            if exists|i: int| 0 <= i < t.len() && t[i].0@ == k {
                let i = choose|i: int| 0 <= i < t.len() && t[i].0@ == k;
                assert(prev[i].0@ == k);
            }
            if exists|i: int| 0 <= i < prev.len() && prev[i].0@ == k {
                let i = choose|i: int| 0 <= i < prev.len() && prev[i].0@ == k;
                assert(t[i].0@ == k);
            }
        }
    }
}

/// Dropping the last entry keeps the names pairwise distinct.
proof fn lemma_distinct_drop_last(t: Seq<(String, Value)>)
    requires
        distinct_keys(t),
        t.len() > 0,
    ensures
        distinct_keys(t.drop_last()),
{
    let prev = t.drop_last();
    assert forall|i: int, j: int| 0 <= i < j < prev.len() implies prev[i].0@ != prev[j].0@ by {
        assert(t[i].0@ != t[j].0@);
    }
}

/// With distinct names, the map binds each entry's name to its value.
proof fn lemma_table_view_at(t: Seq<(String, Value)>, i: int)
    requires
        distinct_keys(t),
        0 <= i < t.len(),
    ensures
        table_view(t).contains_key(t[i].0@),
        table_view(t)[t[i].0@] == t[i].1@,
    decreases t.len(),
{
    let prev = t.drop_last();
    if i == t.len() - 1 {
    } else {
        lemma_distinct_drop_last(t);
        lemma_table_view_at(prev, i);
        assert(t.last().0@ != t[i].0@);
    }
}

/// Appending an entry inserts its binding into the map.
proof fn lemma_table_view_push(t: Seq<(String, Value)>, p: (String, Value))
    ensures
        table_view(t.push(p)) == table_view(t).insert(p.0@, p.1@),
{
    assert(t.push(p).drop_last() =~= t);
    assert(t.push(p).last() == p);
}

/// Overwriting the entry that carries a name re-binds that name and
/// nothing else.
proof fn lemma_table_view_update(t: Seq<(String, Value)>, i: int, p: (String, Value))
    requires
        distinct_keys(t),
        0 <= i < t.len(),
        p.0@ == t[i].0@,
    ensures
        table_view(t.update(i, p)) == table_view(t).insert(p.0@, p.1@),
    decreases t.len(),
{
    let u = t.update(i, p);
    let prev = t.drop_last();
    if i == t.len() - 1 {
        assert(u.drop_last() =~= prev);
        assert(u.last() == p);
        assert(table_view(u) =~= table_view(t).insert(p.0@, p.1@));
    } else {
        lemma_distinct_drop_last(t);
        assert(u.drop_last() =~= prev.update(i, p));
        assert(u.last() == t.last());
        lemma_table_view_update(prev, i, p);
        assert(t.last().0@ != p.0@);
        assert(table_view(u) =~= table_view(t).insert(p.0@, p.1@));
    }
}

broadcast use {
    crate::semantics::lemma_out_prefix_refl,
    crate::semantics::lemma_out_prefix_append,
    crate::semantics::lemma_out_prefix_trans,
};

impl Executor {
    /// The symbol table's names are pairwise distinct.  Established by
    /// `new` and preserved by every operation.
    pub closed spec fn wf(&self) -> bool {
        distinct_keys(self.symbol_table@)
    }

    /// The symbol table as a map, the model every contract speaks of.
    pub closed spec fn env(&self) -> Map<Seq<char>, ValueView> {
        table_view(self.symbol_table@)
    }

    /// The transcript of written text, as the model sees it.
    pub closed spec fn out(&self) -> Seq<char> {
        self.output@
    }

    /// The interpreter's state in the model of `semantics`.
    pub open spec fn state(&self) -> RunState {
        RunState { env: self.env(), out: self.out() }
    }

    /// A fresh interpreter: empty symbol table, empty output transcript.
    pub fn new() -> (r: Executor)
        ensures
            r.wf(),
            r.env() == Map::<Seq<char>, ValueView>::empty(),
            r.out() == Seq::<char>::empty(),
    {
        Executor { symbol_table: Vec::new(), output: String::new() }
    }

    /// The transcript of everything the program has written so far.
    pub fn output(&self) -> (r: &String)
        ensures
            r@ == self.out(),
    {
        &self.output
    }

    /// The index of the entry carrying `name`, if one exists.
    fn find_symbol(&self, name: &String) -> (r: Option<usize>)
        ensures
            match r {
                Some(i) => i < self.symbol_table@.len() && self.symbol_table@[i as int].0@
                    == name@,
                None => forall|j: int|
                    0 <= j < self.symbol_table@.len() ==> self.symbol_table@[j].0@ != name@,
            },
    {
        let n = self.symbol_table.len();
        let mut i: usize = 0;
        while i < n
            invariant
                n == self.symbol_table@.len(),
                i <= n,
                forall|j: int| 0 <= j < i ==> self.symbol_table@[j].0@ != name@,
            decreases n - i,
        {
            if self.symbol_table[i].0.eq(name) {
                return Some(i);
            }
            i = i + 1;
        }
        None
    }

    /// Whether `name` is declared, as the model's `contains_key`.
    fn contains_symbol(&self, name: &String) -> (r: bool)
        ensures
            r == self.env().contains_key(name@),
    {
        let r = self.find_symbol(name);
        proof {
            lemma_table_view_contains(self.symbol_table@, name@);
        }
        match r {
            Some(_) => true,
            None => false,
        }
    }

    /// Bind a new name to `Unknown`; a name already present is the error
    /// `DuplicateDeclaration`, and the table is unchanged.
    fn declare_symbol(&mut self, name: &String) -> (r: Result<(), crate::value::RuntimeError>)
        requires
            old(self).wf(),
        ensures
            final(self).wf(),
            final(self).output@ == old(self).output@,
            match r {
                Ok(()) => !old(self).env().contains_key(name@) && final(self).env() == old(
                    self,
                ).env().insert(name@, ValueView::Unknown),
                Err(e) => e@ == crate::value::ErrorView::DuplicateDeclaration(name@) && old(
                    self,
                ).env().contains_key(name@) && final(self).env() == old(self).env(),
            },
    {
        proof {
            lemma_table_view_contains(self.symbol_table@, name@);
        }
        match self.find_symbol(name) {
            Some(_) => Err(crate::value::RuntimeError::DuplicateDeclaration(name.clone())),
            None => {
                let ghost t0 = self.symbol_table@;
                self.symbol_table.push((name.clone(), Value::Unknown));
                proof {
                    lemma_table_view_push(t0, self.symbol_table@.last());
                    assert forall|i: int, j: int|
                        0 <= i < j < self.symbol_table@.len() implies self.symbol_table@[i].0@
                        != self.symbol_table@[j].0@ by {
                        if j < self.symbol_table@.len() - 1 {
                            assert(t0[i].0@ != t0[j].0@);
                        } else {
                            assert(t0[i].0@ != name@);
                        }
                    }
                }
                Ok(())
            },
        }
    }

    /// Read the value bound to `name`, as `sem_lookup` of the model.
    fn read_symbol(&self, name: &String) -> (r: Result<Value, crate::value::RuntimeError>)
        requires
            self.wf(),
        ensures
            crate::value::eval_result_view(r) == crate::semantics::sem_lookup(self.env(), name@),
    {
        proof {
            lemma_table_view_contains(self.symbol_table@, name@);
        }
        match self.find_symbol(name) {
            None => Err(crate::value::RuntimeError::UndeclaredSymbol(name.clone())),
            Some(i) => {
                proof {
                    lemma_table_view_at(self.symbol_table@, i as int);
                }
                match &self.symbol_table[i].1 {
                    Value::Unknown => Err(
                        crate::value::RuntimeError::UseOfUninitialized(name.clone()),
                    ),
                    v => Ok(v.duplicate()),
                }
            },
        }
    }

    /// Overwrite the binding of a declared name; an undeclared one is the
    /// error `UndeclaredSymbol`, and the table is unchanged.
    fn assign_symbol(&mut self, name: &String, v: Value) -> (r: Result<
        (),
        crate::value::RuntimeError,
    >)
        requires
            old(self).wf(),
        ensures
            final(self).wf(),
            final(self).output@ == old(self).output@,
            match r {
                Ok(()) => old(self).env().contains_key(name@) && final(self).env() == old(
                    self,
                ).env().insert(name@, v@),
                Err(e) => e@ == crate::value::ErrorView::UndeclaredSymbol(name@) && !old(
                    self,
                ).env().contains_key(name@) && final(self).env() == old(self).env(),
            },
    {
        proof {
            lemma_table_view_contains(self.symbol_table@, name@);
        }
        match self.find_symbol(name) {
            None => Err(crate::value::RuntimeError::UndeclaredSymbol(name.clone())),
            Some(i) => {
                let ghost t0 = self.symbol_table@;
                self.symbol_table.remove(i);
                self.symbol_table.insert(i, (name.clone(), v));
                proof {
                    assert(self.symbol_table@ =~= t0.update(
                        i as int,
                        self.symbol_table@[i as int],
                    ));
                    lemma_table_view_update(t0, i as int, self.symbol_table@[i as int]);
                    assert forall|a: int, b: int|
                        0 <= a < b < self.symbol_table@.len() implies self.symbol_table@[a].0@
                        != self.symbol_table@[b].0@ by {
                        assert(self.symbol_table@[a].0@ == t0[a].0@);
                        assert(self.symbol_table@[b].0@ == t0[b].0@);
                        assert(t0[a].0@ != t0[b].0@);
                    }
                }
                Ok(())
            },
        }
    }
}

/// How a statement run ended: the executable mirror of `Control`.
pub enum Flow {
    Done,
    Fault(RuntimeError),
    Spent,
}

impl View for Flow {
    type V = Control;

    open spec fn view(&self) -> Control {
        match self {
            Flow::Done => Control::Done,
            Flow::Fault(e) => Control::Fault(e@),
            Flow::Spent => Control::Spent,
        }
    }
}

/// In a sequence free of console input forms, so is every statement.
proof fn lemma_stmts_input_index(ss: Seq<Statement>, i: int)
    requires
        !stmts_read_input(ss),
        0 <= i < ss.len(),
    ensures
        !stmt_reads_input(ss[i]),
    decreases i,
{
    if i > 0 {
        lemma_stmts_input_index(ss.drop_first(), i - 1);
    }
}

/// Dropping a scanned prefix keeps a sequence free of console input forms.
proof fn lemma_stmts_input_subrange(ss: Seq<Statement>, i: int)
    requires
        !stmts_read_input(ss),
        0 <= i <= ss.len(),
    ensures
        !stmts_read_input(ss.subrange(i, ss.len() as int)),
    decreases i,
{
    if i == 0 {
        assert(ss.subrange(0, ss.len() as int) =~= ss);
    } else {
        lemma_stmts_input_subrange(ss.drop_first(), i - 1);
        assert(ss.drop_first().subrange(i - 1, ss.drop_first().len() as int) =~= ss.subrange(
            i,
            ss.len() as int,
        ));
    }
}

impl Executor {
    /// Recursively reduce an expression to a value against the current
    /// symbol table.  On an expression without console input forms the
    /// outcome is exactly `sem_expr` of the model; an input form takes
    /// what the console offers, a number line being read as
    /// `parse_input_number` states and a string line kept verbatim.
    fn eval_arithmetic_logic_expression(&self, expr: &Expression) -> (r: Result<
        Value,
        RuntimeError,
    >)
        requires
            self.wf(),
        ensures
            !expr_reads_input(*expr) ==> eval_result_view(r) == sem_expr(self.env(), *expr),
        decreases expr,
    {
        match expr {
            Expression::Add(l, r) => {
                let lv = match self.eval_arithmetic_logic_expression(&**l) {
                    Ok(v) => v,
                    Err(e) => { return Err(e); },
                };
                let rv = match self.eval_arithmetic_logic_expression(&**r) {
                    Ok(v) => v,
                    Err(e) => { return Err(e); },
                };
                add_values(&lv, &rv)
            },
            Expression::Subtract(l, r) => {
                let lv = match self.eval_arithmetic_logic_expression(&**l) {
                    Ok(v) => v,
                    Err(e) => { return Err(e); },
                };
                let rv = match self.eval_arithmetic_logic_expression(&**r) {
                    Ok(v) => v,
                    Err(e) => { return Err(e); },
                };
                subtract_values(&lv, &rv)
            },
            Expression::Multiply(l, r) => {
                let lv = match self.eval_arithmetic_logic_expression(&**l) {
                    Ok(v) => v,
                    Err(e) => { return Err(e); },
                };
                let rv = match self.eval_arithmetic_logic_expression(&**r) {
                    Ok(v) => v,
                    Err(e) => { return Err(e); },
                };
                multiply_values(&lv, &rv)
            },
            Expression::Divide(l, r) => {
                let lv = match self.eval_arithmetic_logic_expression(&**l) {
                    Ok(v) => v,
                    Err(e) => { return Err(e); },
                };
                let rv = match self.eval_arithmetic_logic_expression(&**r) {
                    Ok(v) => v,
                    Err(e) => { return Err(e); },
                };
                divide_values(&lv, &rv)
            },
            Expression::UnaryMinus(x) => {
                let v = match self.eval_arithmetic_logic_expression(&**x) {
                    Ok(v) => v,
                    Err(e) => { return Err(e); },
                };
                negate_value(&v)
            },
            Expression::Equals(l, r) => {
                let lv = match self.eval_arithmetic_logic_expression(&**l) {
                    Ok(v) => v,
                    Err(e) => { return Err(e); },
                };
                let rv = match self.eval_arithmetic_logic_expression(&**r) {
                    Ok(v) => v,
                    Err(e) => { return Err(e); },
                };
                equals_values(&lv, &rv)
            },
            Expression::NotEquals(l, r) => {
                let lv = match self.eval_arithmetic_logic_expression(&**l) {
                    Ok(v) => v,
                    Err(e) => { return Err(e); },
                };
                let rv = match self.eval_arithmetic_logic_expression(&**r) {
                    Ok(v) => v,
                    Err(e) => { return Err(e); },
                };
                not_equals_values(&lv, &rv)
            },
            Expression::GreaterThan(l, r) => {
                let lv = match self.eval_arithmetic_logic_expression(&**l) {
                    Ok(v) => v,
                    Err(e) => { return Err(e); },
                };
                let rv = match self.eval_arithmetic_logic_expression(&**r) {
                    Ok(v) => v,
                    Err(e) => { return Err(e); },
                };
                greater_than_values(&lv, &rv)
            },
            Expression::LessThan(l, r) => {
                let lv = match self.eval_arithmetic_logic_expression(&**l) {
                    Ok(v) => v,
                    Err(e) => { return Err(e); },
                };
                let rv = match self.eval_arithmetic_logic_expression(&**r) {
                    Ok(v) => v,
                    Err(e) => { return Err(e); },
                };
                less_than_values(&lv, &rv)
            },
            Expression::Integer(i) => Ok(Value::Integer(*i)),
            Expression::StringLiteral(s) => Ok(Value::Str(s.clone())),
            Expression::Symbol(name) => self.read_symbol(name),
            Expression::InputNumber => {
                let line = read_console_line();
                parse_input_number(line.as_str())
            },
            Expression::InputString => Ok(Value::Str(read_console_line())),
        }
    }

    /// Run one statement with the given fuel.  On a statement without
    /// console input forms, the state reached and the way the run ended
    /// are exactly `sem_stmt` of the model.
    #[verifier::loop_isolation(false)]
    fn execute_statement(&mut self, s: &Statement, fuel: u64) -> (f: Flow)
        requires
            old(self).wf(),
        ensures
            final(self).wf(),
            old(self).out().is_prefix_of(final(self).out()),
            !stmt_reads_input(*s) ==> (StepResult {
                state: final(self).state(),
                control: f@,
            }) == sem_stmt(old(self).state(), *s, fuel as nat),
        decreases fuel, s,
    {
        match s {
            Statement::Declaration(name) => {
                match self.declare_symbol(name) {
                    Ok(()) => Flow::Done,
                    Err(e) => Flow::Fault(e),
                }
            },
            Statement::Assignment(name, e) => {
                if !self.contains_symbol(name) {
                    Flow::Fault(RuntimeError::UndeclaredSymbol(name.clone()))
                } else {
                    match self.eval_arithmetic_logic_expression(e) {
                        Ok(v) => {
                            match self.assign_symbol(name, v) {
                                Ok(()) => Flow::Done,
                                // a declared name cannot vanish: evaluation
                                // leaves the table untouched
                                Err(er) => {
                                    proof {
                                        assert(false);
                                    }
                                    Flow::Fault(er)
                                },
                            }
                        },
                        Err(er) => Flow::Fault(er),
                    }
                }
            },
            Statement::Conditional(c, truebody, falsebody) => {
                let cv = match self.eval_arithmetic_logic_expression(c) {
                    Ok(v) => v,
                    Err(er) => { return Flow::Fault(er); },
                };
                let truth = match to_bool(&cv) {
                    Ok(b) => b,
                    Err(er) => { return Flow::Fault(er); },
                };
                if truth {
                    self.execute_statements(truebody, fuel)
                } else {
                    match falsebody {
                        Some(b) => self.execute_statements(b, fuel),
                        None => Flow::Done,
                    }
                }
            },
            Statement::Loop(c, body) => {
                let mut fuel_left: u64 = fuel;
                loop
                    invariant
                        self.wf(),
                        fuel_left <= fuel,
                        old(self).out().is_prefix_of(self.out()),
                        !stmt_reads_input(*s) ==> sem_stmt(old(self).state(), *s, fuel as nat)
                            == sem_stmt(self.state(), *s, fuel_left as nat),
                    decreases fuel_left,
                {
                    let cv = match self.eval_arithmetic_logic_expression(c) {
                        Ok(v) => v,
                        Err(er) => { return Flow::Fault(er); },
                    };
                    let truth = match to_bool(&cv) {
                        Ok(b) => b,
                        Err(er) => { return Flow::Fault(er); },
                    };
                    if !truth {
                        return Flow::Done;
                    }
                    if fuel_left == 0 {
                        return Flow::Spent;
                    }
                    match self.execute_statements(body, fuel_left - 1) {
                        Flow::Done => {},
                        fl => { return fl; },
                    }
                    fuel_left = fuel_left - 1;
                }
            },
            Statement::Write(e) => {
                let v = match self.eval_arithmetic_logic_expression(e) {
                    Ok(v) => v,
                    Err(er) => { return Flow::Fault(er); },
                };
                match render_value(&v) {
                    Ok(text) => {
                        console_write(text.as_str());
                        console_flush();
                        self.output.append(text.as_str());
                        Flow::Done
                    },
                    Err(er) => Flow::Fault(er),
                }
            },
        }
    }

    /// Run a statement sequence in order with the given fuel.  On a
    /// sequence without console input forms, the state reached and the way
    /// the run ended are exactly `sem_stmts` of the model.
    fn execute_statements(&mut self, ss: &Vec<Statement>, fuel: u64) -> (f: Flow)
        requires
            old(self).wf(),
        ensures
            final(self).wf(),
            old(self).out().is_prefix_of(final(self).out()),
            !stmts_read_input(ss@) ==> (StepResult {
                state: final(self).state(),
                control: f@,
            }) == sem_stmts(old(self).state(), ss@, fuel as nat),
        decreases fuel, ss,
    {
        let n = ss.len();
        let mut i: usize = 0;
        proof {
            assert(ss@.subrange(0, n as int) =~= ss@);
        }
        while i < n
            invariant
                n == ss@.len(),
                i <= n,
                self.wf(),
                old(self).out().is_prefix_of(self.out()),
                !stmts_read_input(ss@) ==> sem_stmts(old(self).state(), ss@, fuel as nat)
                    == sem_stmts(self.state(), ss@.subrange(i as int, n as int), fuel as nat),
            decreases n - i,
        {
            proof {
                if !stmts_read_input(ss@) {
                    lemma_stmts_input_index(ss@, i as int);
                    lemma_stmts_input_subrange(ss@, i as int);
                }
            }
            let step = self.execute_statement(&ss[i], fuel);
            proof {
                if !stmts_read_input(ss@) {
                    let tail = ss@.subrange(i as int, n as int);
                    assert(tail[0] == ss@[i as int]);
                    assert(tail.drop_first() =~= ss@.subrange(i as int + 1, n as int));
                }
            }
            match step {
                Flow::Done => {},
                fl => { return fl; },
            }
            i = i + 1;
        }
        proof {
            if !stmts_read_input(ss@) {
                assert(ss@.subrange(n as int, n as int) =~= Seq::<Statement>::empty());
            }
        }
        Flow::Done
    }

    /// Run a whole program with the given step budget.  `Some(Ok(()))` is
    /// a completed run, `Some(Err(e))` a run stopped by its first error
    /// (the symbol table keeps the partial state reached, nothing is
    /// rolled back), and `None` a run whose loops outlived the budget:
    /// each iteration of a loop spends one unit of its fuel, and a loop
    /// body runs on the remainder.  On a program without console input
    /// forms the outcome is exactly `sem_stmts` of the model.
    pub fn execute(&mut self, unit: &SourceUnit, fuel: u64) -> (r: Option<
        Result<(), RuntimeError>,
    >)
        requires
            old(self).wf(),
        ensures
            final(self).wf(),
            old(self).out().is_prefix_of(final(self).out()),
            !stmts_read_input(unit.0@) ==> (final(self).state() == sem_stmts(
                old(self).state(),
                unit.0@,
                fuel as nat,
            ).state && (match r {
                Some(res) => match res {
                    Ok(()) => sem_stmts(old(self).state(), unit.0@, fuel as nat).control
                        == Control::Done,
                    Err(e) => sem_stmts(old(self).state(), unit.0@, fuel as nat).control
                        == Control::Fault(e@),
                },
                None => sem_stmts(old(self).state(), unit.0@, fuel as nat).control
                    == Control::Spent,
            })),
    {
        match self.execute_statements(&unit.0, fuel) {
            Flow::Done => Some(Ok(())),
            Flow::Fault(e) => Some(Err(e)),
            Flow::Spent => None,
        }
    }
}

} // verus!
