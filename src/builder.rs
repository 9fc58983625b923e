//! Indentation-aware emission of SQL text.
use vstd::prelude::*;
use crate::engine::{is_child, tree_wf, Engine, EntryView, QueryField, SelectView};
use crate::expr::{Expr, Operand};
use crate::lower::{vec_model, Clause, Lowered};
use crate::LocalId;

verus! {

/// The indentation one level deeper; it stops growing at the largest `usize`.
pub open spec fn deeper(ind: nat) -> nat {
    if ind < usize::MAX {
        ind + 1
    } else {
        ind
    }
}

/// A line break followed by `ind` spaces.
pub open spec fn nl(ind: nat) -> Seq<char> {
    seq!['\n'] + Seq::new(ind, |i: int| ' ')
}

/// The decimal digit for `d < 10`.
pub open spec fn digit(d: nat) -> char {
    if d == 0 {
        '0'
    } else if d == 1 {
        '1'
    } else if d == 2 {
        '2'
    } else if d == 3 {
        '3'
    } else if d == 4 {
        '4'
    } else if d == 5 {
        '5'
    } else if d == 6 {
        '6'
    } else if d == 7 {
        '7'
    } else if d == 8 {
        '8'
    } else {
        '9'
    }
}

/// The decimal digits of `n`.
pub open spec fn decimal(n: nat) -> Seq<char>
    decreases n,
{
    if n < 10 {
        seq![digit(n)]
    } else {
        decimal(n / 10) + seq![digit(n % 10)]
    }
}

/// A text buffer with a current indentation.
pub struct QueryBuilder {
    indent: usize,
    buf: String,
}

impl QueryBuilder {
    /// The text written so far.
    pub closed spec fn text(&self) -> Seq<char> {
        self.buf@
    }

    /// The current indentation.
    pub closed spec fn level(&self) -> nat {
        self.indent as nat
    }

    /// An empty buffer at indentation 0.
    pub fn new() -> (r: QueryBuilder)
        ensures
            r.text() == Seq::<char>::empty(),
            r.level() == 0,
    {
        QueryBuilder { indent: 0, buf: String::new() }
    }

    /// Appends `s`.
    pub fn push(&mut self, s: &str)
        ensures
            final(self).text() == old(self).text() + s@,
            final(self).level() == old(self).level(),
    {
        self.buf.append(s);
    }

    /// Starts a new line at the current indentation.
    pub fn newline(&mut self)
        ensures
            final(self).text() == old(self).text() + nl(old(self).level()),
            final(self).level() == old(self).level(),
    {
        proof {
            reveal_strlit("\n");
        }
        let ghost start = self.buf@;
        self.buf.append("\n");
        let mut i: usize = 0;
        while i < self.indent
            invariant
                i <= self.indent,
                self.indent == old(self).indent,
                self.buf@ == start + seq!['\n'] + Seq::new(i as nat, |j: int| ' '),
            decreases self.indent - i,
        {
            proof {
                reveal_strlit(" ");
            }
            self.buf.append(" ");
            i = i + 1;
            assert(self.buf@ =~= start + seq!['\n'] + Seq::new(i as nat, |j: int| ' '));
        }
        assert(self.buf@ =~= start + nl(self.indent as nat));
    }

    /// Goes one level deeper and starts a new line there.
    pub fn newline_indent(&mut self)
        ensures
            final(self).level() == deeper(old(self).level()),
            final(self).text() == old(self).text() + nl(deeper(old(self).level())),
    {
        self.indent = self.indent.saturating_add(1);
        self.newline();
    }

    /// Goes one level back and starts a new line there.
    pub fn newline_outdent(&mut self)
        requires
            old(self).level() > 0,
        ensures
            final(self).level() == old(self).level() - 1,
            final(self).text() == old(self).text() + nl((old(self).level() - 1) as nat),
    {
        self.indent = self.indent - 1;
        self.newline();
    }

    /// Goes one level back.
    pub fn outdent(&mut self)
        requires
            old(self).level() > 0,
        ensures
            final(self).level() == old(self).level() - 1,
            final(self).text() == old(self).text(),
    {
        self.indent = self.indent - 1;
    }

    /// The current indentation.
    pub fn indent(&self) -> (r: usize)
        ensures
            r == self.level(),
    {
        self.indent
    }

    /// Sets the indentation of the lines that follow.
    pub fn set_indent(&mut self, indent: usize)
        ensures
            final(self).level() == indent,
            final(self).text() == old(self).text(),
    {
        self.indent = indent;
    }

    fn push_digit(&mut self, d: u64)
        requires
            d < 10,
        ensures
            final(self).text() == old(self).text() + seq![digit(d as nat)],
            final(self).level() == old(self).level(),
    {
        proof {
            reveal_strlit("0123456789");
        }
        let digits = "0123456789";
        let s = digits.substring_char(d as usize, d as usize + 1);
        assert(s@ =~= seq![digit(d as nat)]);
        self.buf.append(s);
    }

    /// Appends the decimal digits of `n`.
    pub fn push_number(&mut self, n: u64)
        ensures
            final(self).text() == old(self).text() + decimal(n as nat),
            final(self).level() == old(self).level(),
        decreases n,
    {
        if n >= 10 {
            self.push_number(n / 10);
            self.push_digit(n % 10);
            assert(old(self).text() + decimal((n / 10) as nat) + seq![digit((n % 10) as nat)] =~= old(self).text() + decimal(n as nat));
        } else {
            self.push_digit(n);
        }
    }

    /// The text written so far.
    pub fn into_string(self) -> (r: String)
        ensures
            r@ == self.text(),
    {
        self.buf
    }
}

/// `a<alias>.<name>`
pub open spec fn column_ref(alias: nat, name: Seq<char>) -> Seq<char> {
    "a"@ + decimal(alias) + "."@ + name
}

/// An operand of an expression that belongs to the select aliased `alias`,
/// whose enclosing select is aliased `parent`.
pub open spec fn render_operand(o: Operand, alias: nat, parent: nat) -> Seq<char> {
    match o {
        Operand::Column(name) => column_ref(alias, name@),
        Operand::Outer(name) => column_ref(parent, name@),
        Operand::Param(_) => "?"@,
    }
}

/// A leaf expression: `l = r`, or `item = any(vector)`.
pub open spec fn render_expr(e: Expr, alias: nat, parent: nat) -> Seq<char> {
    match e {
        Expr::Equals(l, r) => render_operand(l, alias, parent) + " = "@ + render_operand(r, alias, parent),
        Expr::Contains { vector, item } => render_operand(item, alias, parent) + " = any("@
            + render_operand(vector, alias, parent) + ")"@,
    }
}

/// A lowered clause at indentation `ind`: an expression inline, a combinator
/// as a parenthesized list with one operand per line, separated by its keyword.
pub open spec fn render_clause(c: Clause, ind: nat, alias: nat, parent: nat) -> Seq<char>
    decreases c, 0nat,
{
    match c {
        Clause::Expr(e) => render_expr(e, alias, parent),
        Clause::And(s) => render_list("AND"@, s, ind, alias, parent),
        Clause::Or(s) => render_list("OR"@, s, ind, alias, parent),
    }
}

/// The operands of a combinator, parenthesized, one per line, separated by `word`.
pub open spec fn render_list(word: Seq<char>, s: Seq<Clause>, ind: nat, alias: nat, parent: nat) -> Seq<char>
    decreases s, 1nat,
{
    if s.len() == 0 {
        Seq::empty()
    } else {
        "("@ + nl(deeper(ind)) + render_items(word, s, s.len(), deeper(ind), alias, parent) + nl(ind) + ")"@
    }
}

/// The first `n` operands of a list, one per line.
pub open spec fn render_items(word: Seq<char>, s: Seq<Clause>, n: nat, ind: nat, alias: nat, parent: nat) -> Seq<char>
    decreases s, 0nat, n,
{
    if n == 0 || n > s.len() {
        Seq::empty()
    } else if n == 1 {
        render_clause(s[0], ind, alias, parent)
    } else {
        render_items(word, s, (n - 1) as nat, ind, alias, parent) + nl(ind) + word + nl(ind)
            + render_clause(s[n - 1], ind, alias, parent)
    }
}

fn build_operand(builder: &mut QueryBuilder, o: &Operand, alias: u16, parent: u16)
    ensures
        final(builder).text() == old(builder).text() + render_operand(*o, alias as nat, parent as nat),
        final(builder).level() == old(builder).level(),
{
    match o {
        Operand::Column(name) => {
            builder.push("a");
            builder.push_number(alias as u64);
            builder.push(".");
            builder.push(name.as_str());
        },
        Operand::Outer(name) => {
            builder.push("a");
            builder.push_number(parent as u64);
            builder.push(".");
            builder.push(name.as_str());
        },
        Operand::Param(_) => {
            builder.push("?");
        },
    }
    assert(final(builder).text() =~= old(builder).text() + render_operand(*o, alias as nat, parent as nat));
}

fn build_expr(builder: &mut QueryBuilder, e: &Expr, alias: u16, parent: u16)
    ensures
        final(builder).text() == old(builder).text() + render_expr(*e, alias as nat, parent as nat),
        final(builder).level() == old(builder).level(),
{
    match e {
        Expr::Equals(l, r) => {
            build_operand(builder, l, alias, parent);
            builder.push(" = ");
            build_operand(builder, r, alias, parent);
        },
        Expr::Contains { vector, item } => {
            build_operand(builder, item, alias, parent);
            builder.push(" = any(");
            build_operand(builder, vector, alias, parent);
            builder.push(")");
        },
    }
    assert(final(builder).text() =~= old(builder).text() + render_expr(*e, alias as nat, parent as nat));
}

/// Emits a lowered clause.
pub fn build_clause(builder: &mut QueryBuilder, l: &Lowered, alias: u16, parent: u16)
    ensures
        final(builder).text() == old(builder).text() + render_clause(l.model(), old(builder).level(), alias as nat, parent as nat),
        final(builder).level() == old(builder).level(),
    decreases l, 0nat,
{
    match l {
        Lowered::Expr(e) => {
            build_expr(builder, e, alias, parent);
        },
        Lowered::And(v) => {
            build_multiline_infix(builder, "AND", v, alias, parent);
            assert(l.model().operands() =~= vec_model(*v));
        },
        Lowered::Or(v) => {
            build_multiline_infix(builder, "OR", v, alias, parent);
            assert(l.model().operands() =~= vec_model(*v));
        },
    }
}

/// Emits the operands of a combinator as a parenthesized list, one per line.
fn build_multiline_infix(builder: &mut QueryBuilder, infix: &str, clauses: &Vec<Lowered>, alias: u16, parent: u16)
    ensures
        final(builder).text() == old(builder).text() + render_list(
            infix@,
            vec_model(*clauses),
            old(builder).level(),
            alias as nat,
            parent as nat,
        ),
        final(builder).level() == old(builder).level(),
    decreases clauses, 1nat,
{
    let ghost s = vec_model(*clauses);
    let ghost start = builder.text();
    let ind = builder.indent();
    if clauses.len() == 0 {
        assert(builder.text() =~= start + Seq::<char>::empty());
        return;
    }
    builder.push("(");
    builder.newline_indent();
    let ghost head = start + "("@ + nl(deeper(ind as nat));
    assert(builder.text() =~= head + render_items(infix@, s, 0, deeper(ind as nat), alias as nat, parent as nat));
    let mut k: usize = 0;
    while k < clauses.len()
        invariant
            k <= clauses@.len(),
            builder.level() == deeper(ind as nat),
            builder.text() == head + render_items(infix@, s, k as nat, deeper(ind as nat), alias as nat, parent as nat),
            s == vec_model(*clauses),
        decreases clauses@.len() - k,
    {
        if k > 0 {
            builder.newline();
            builder.push(infix);
            builder.newline();
        }
        assert(decreases_to!(clauses => clauses[k as int]));
        build_clause(builder, &clauses[k], alias, parent);
        assert(s[k as int] == clauses@[k as int].model());
        k = k + 1;
        assert(builder.text() =~= head + render_items(infix@, s, k as nat, deeper(ind as nat), alias as nat, parent as nat));
    }
    builder.set_indent(ind);
    builder.newline();
    builder.push(")");
    assert(builder.text() =~= start + render_list(infix@, s, ind as nat, alias as nat, parent as nat));
}

/// The start of projection entry `k` at indentation `ind`: a separating comma,
/// a new line and the quoted key.
pub open spec fn entry_head(k: int, key: LocalId, ind: nat) -> Seq<char> {
    (if k > 0 {
        ","@
    } else {
        Seq::empty()
    }) + nl(ind) + "'"@ + decimal(key.0 as nat) + "', "@
}

/// Projection entry `k` of select `i` at indentation `ind`:
/// `'<LocalId>', <column or parenthesized nested select>`, on a line of its own.
pub open spec fn render_entry(m: Seq<SelectView>, i: int, k: int, ind: nat) -> Seq<char>
    decreases m.len() - i, 0nat, 0nat,
{
    if !(0 <= i < m.len()) || !(0 <= k < m[i].projection.len()) {
        Seq::empty()
    } else {
        let e = m[i].projection[k];
        entry_head(k, e.0, ind) + match e.1 {
            EntryView::Primitive(column) => column_ref(m[i].alias, column),
            EntryView::Foreign(j, _) => if i < j < m.len() {
                "("@ + nl(deeper(ind)) + render_select(m, j as int, m[i].alias, deeper(ind)) + nl(ind) + ")"@
            } else {
                Seq::empty()
            },
        }
    }
}

/// The projection entries `0..n` of select `i`, at indentation `ind`.
pub open spec fn render_entries(m: Seq<SelectView>, i: int, n: nat, ind: nat) -> Seq<char>
    decreases m.len() - i, 1nat, n,
{
    if n == 0 {
        Seq::empty()
    } else {
        render_entries(m, i, (n - 1) as nat, ind) + render_entry(m, i, n - 1, ind)
    }
}

/// Select `i` of the query tree at indentation `ind`, nested in a select aliased `parent`.
pub open spec fn render_select(m: Seq<SelectView>, i: int, parent: nat, ind: nat) -> Seq<char>
    decreases m.len() - i, 2nat, 0nat,
{
    if !(0 <= i < m.len()) {
        Seq::empty()
    } else {
        let s = m[i];
        let d1 = deeper(ind);
        "SELECT"@ + nl(d1) + "jsonb_build_object("@ + render_entries(m, i, s.projection.len(), deeper(d1))
            + nl(d1) + ")"@ + nl(ind) + "FROM "@ + s.table + " a"@ + decimal(s.alias) + render_where(s, parent, ind)
    }
}

/// The `WHERE` part of a select, if it has a filter.
pub open spec fn render_where(s: SelectView, parent: nat, ind: nat) -> Seq<char> {
    match s.filter {
        None => Seq::empty(),
        Some(c) => nl(ind) + "WHERE"@ + nl(deeper(ind)) + render_clause(c, deeper(ind), s.alias, parent),
    }
}

proof fn lemma_child_bounds(m: Seq<SelectView>, i: int, k: int, j: int)
    requires
        tree_wf(m),
        is_child(m, i, k, j),
    ensures
        i < j < m.len(),
{
    reveal(tree_wf);
}

proof fn lemma_push(t: Seq<char>, acc: Seq<char>, s: Seq<char>)
    ensures
        (t + acc) + s == t + (acc + s),
{
    assert((t + acc) + s =~= t + (acc + s));
}

/// Emits the value of a foreign entry: the nested select in parentheses.
fn build_nested(builder: &mut QueryBuilder, engine: &Engine, j: usize, alias: u16)
    requires
        engine.wf(),
        j < engine@.len(),
    ensures
        final(builder).text() == old(builder).text() + ("("@ + nl(deeper(old(builder).level())) + render_select(
            engine@,
            j as int,
            alias as nat,
            deeper(old(builder).level()),
        ) + nl(old(builder).level()) + ")"@),
        final(builder).level() == old(builder).level(),
    decreases engine@.len() - j + 1, 0nat,
{
    let ghost t = builder.text();
    let ind = builder.indent();
    let deep = ind.saturating_add(1);
    builder.push("(");
    builder.set_indent(deep);
    builder.newline();
    proof {
        lemma_push(t, "("@, nl(deep as nat));
    }
    let ghost acc = "("@ + nl(deep as nat);
    build_select(builder, engine, j, alias);
    let ghost r = render_select(engine@, j as int, alias as nat, deep as nat);
    proof {
        lemma_push(t, acc, r);
    }
    let ghost acc = acc + r;
    builder.set_indent(ind);
    builder.newline();
    proof {
        lemma_push(t, acc, nl(ind as nat));
    }
    let ghost acc = acc + nl(ind as nat);
    builder.push(")");
    proof {
        lemma_push(t, acc, ")"@);
    }
}

/// Emits projection entry `k` of select `i`.
fn build_entry(builder: &mut QueryBuilder, engine: &Engine, i: usize, k: usize)
    requires
        engine.wf(),
        i < engine@.len(),
        k < engine@[i as int].projection.len(),
    ensures
        final(builder).text() == old(builder).text() + render_entry(engine@, i as int, k as int, old(builder).level()),
        final(builder).level() == old(builder).level(),
    decreases engine@.len() - i, 1nat,
{
    let ghost m = engine@;
    let ghost t = builder.text();
    let ind = builder.indent();
    let sel = engine.select(i);
    let alias = sel.from.alias;
    let entry = &sel.projection[k];
    assert(m[i as int].projection[k as int] == (entry.0, entry.1@));
    let ghost comma = if k > 0 { ","@ } else { Seq::<char>::empty() };
    if k > 0 {
        builder.push(",");
    } else {
        assert(t + Seq::<char>::empty() =~= t);
    }
    builder.newline();
    proof {
        lemma_push(t, comma, nl(ind as nat));
    }
    let ghost acc = comma + nl(ind as nat);
    builder.push("'");
    proof {
        lemma_push(t, acc, "'"@);
    }
    let ghost acc = acc + "'"@;
    builder.push_number(entry.0.0 as u64);
    proof {
        lemma_push(t, acc, decimal(entry.0.0 as nat));
    }
    let ghost acc = acc + decimal(entry.0.0 as nat);
    builder.push("', ");
    proof {
        lemma_push(t, acc, "', "@);
    }
    let ghost head = acc + "', "@;
    assert(head == entry_head(k as int, entry.0, ind as nat));
    let ghost th = builder.text();
    match &entry.1 {
        QueryField::Primitive { column } => {
            builder.push("a");
            builder.push_number(alias as u64);
            builder.push(".");
            builder.push(column.as_str());
            assert(builder.text() =~= th + column_ref(alias as nat, column@));
            proof {
                lemma_push(t, head, column_ref(alias as nat, column@));
            }
        },
        QueryField::Foreign { select, .. } => {
            proof {
                lemma_child_bounds(m, i as int, k as int, *select as int);
            }
            build_nested(builder, engine, *select, alias);
            proof {
                lemma_push(t, head, "("@ + nl(deeper(ind as nat)) + render_select(m, *select as int, alias as nat, deeper(ind as nat)) + nl(ind as nat) + ")"@);
            }
        },
    }
}

/// Emits select `i` of `engine` and, nested in it, the selects of its foreign entries.
fn build_select(builder: &mut QueryBuilder, engine: &Engine, i: usize, parent: u16)
    requires
        engine.wf(),
        i < engine@.len(),
    ensures
        final(builder).text() == old(builder).text() + render_select(engine@, i as int, parent as nat, old(builder).level()),
        final(builder).level() == old(builder).level(),
    decreases engine@.len() - i, 2nat,
{
    let ghost m = engine@;
    let ghost t = builder.text();
    let ind = builder.indent();
    let sel = engine.select(i);
    let alias = sel.from.alias;
    builder.push("SELECT");
    builder.newline_indent();
    proof {
        lemma_push(t, "SELECT"@, nl(deeper(ind as nat)));
    }
    let ghost acc = "SELECT"@ + nl(deeper(ind as nat));
    builder.push("jsonb_build_object(");
    proof {
        lemma_push(t, acc, "jsonb_build_object("@);
    }
    let ghost acc = acc + "jsonb_build_object("@;
    let d1 = builder.indent();
    let d2 = d1.saturating_add(1);
    builder.set_indent(d2);
    let ghost t1 = builder.text();
    assert(t1 =~= t1 + render_entries(m, i as int, 0, d2 as nat));
    let n = sel.projection.len();
    let mut k: usize = 0;
    while k < n
        invariant
            engine.wf(),
            m == engine@,
            i < m.len(),
            n == m[i as int].projection.len(),
            k <= n,
            builder.level() == d2,
            builder.text() == t1 + render_entries(m, i as int, k as nat, d2 as nat),
        decreases n - k,
    {
        build_entry(builder, engine, i, k);
        proof {
            lemma_push(t1, render_entries(m, i as int, k as nat, d2 as nat), render_entry(m, i as int, k as int, d2 as nat));
        }
        k = k + 1;
    }
    let ghost entries = render_entries(m, i as int, n as nat, d2 as nat);
    proof {
        lemma_push(t, acc, entries);
    }
    let ghost acc = acc + entries;
    builder.set_indent(d1);
    builder.newline();
    proof {
        lemma_push(t, acc, nl(d1 as nat));
    }
    let ghost acc = acc + nl(d1 as nat);
    builder.push(")");
    proof {
        lemma_push(t, acc, ")"@);
    }
    let ghost acc = acc + ")"@;
    builder.set_indent(ind);
    builder.newline();
    proof {
        lemma_push(t, acc, nl(ind as nat));
    }
    let ghost acc = acc + nl(ind as nat);
    builder.push("FROM ");
    proof {
        lemma_push(t, acc, "FROM "@);
    }
    let ghost acc = acc + "FROM "@;
    builder.push(sel.from.table.as_str());
    proof {
        lemma_push(t, acc, m[i as int].table);
    }
    let ghost acc = acc + m[i as int].table;
    builder.push(" a");
    proof {
        lemma_push(t, acc, " a"@);
    }
    let ghost acc = acc + " a"@;
    builder.push_number(alias as u64);
    proof {
        lemma_push(t, acc, decimal(alias as nat));
    }
    let ghost acc = acc + decimal(alias as nat);
    let ghost t2 = builder.text();
    match &sel.filter {
        Some(f) => {
            builder.newline();
            builder.push("WHERE");
            builder.set_indent(d1);
            builder.newline();
            build_clause(builder, f, alias, parent);
            builder.set_indent(ind);
            assert(builder.text() =~= t2 + render_where(m[i as int], parent as nat, ind as nat));
        },
        None => {
            assert(builder.text() =~= t2 + render_where(m[i as int], parent as nat, ind as nat));
        },
    }
    proof {
        lemma_push(t, acc, render_where(m[i as int], parent as nat, ind as nat));
    }
}

impl Engine {
    /// The SQL text of the whole query: the root select, with every nested
    /// select in place of its foreign entry.
    pub fn build_query(&self) -> (r: String)
        requires
            self.wf(),
        ensures
            r@ == render_select(self@, 0, 0, 0),
    {
        proof {
            crate::engine::lemma_tree_wf_len(self@);
        }
        let mut builder = QueryBuilder::new();
        build_select(&mut builder, self, 0, 0);
        assert(builder.text() =~= render_select(self@, 0, 0, 0));
        builder.into_string()
    }
}

} // verus!
