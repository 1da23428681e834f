//! The persistence format: a human-readable, order-preserving textual
//! rendering of the collection, with a strict parser, proved to round
//! trip.
//!
//! The format is the obvious JSON shape, fixed down to its whitespace:
//! the collection is an array of list objects, each holding a `name`
//! string and a `tasks` array of task objects with `name` and
//! `completed` members. Only `"` and `\` are escaped in names. The
//! parser accepts exactly what the renderer produces; anything else is
//! treated as corrupt storage and refused, which the caller turns into
//! an empty collection.

use crate::app::App;
use crate::model::{lists_view, tasks_view, List, ListV, Task, TaskV};
use crate::strutil::push_char;
use vstd::prelude::*;
use vstd::string::StrSliceExecFns;
use vstd::string::StringExecFns;

verus! {

/// How one character appears inside a rendered name: `"` and `\` get a
/// backslash in front, every other character stands as itself.
pub open spec fn esc_char(c: char) -> Seq<char> {
    if c == '"' || c == '\\' {
        seq!['\\', c]
    } else {
        seq![c]
    }
}

/// How a whole name appears inside its quotes.
pub open spec fn esc_str(s: Seq<char>) -> Seq<char>
    decreases s.len(),
{
    if s.len() == 0 {
        Seq::empty()
    } else {
        esc_char(s[0]) + esc_str(s.skip(1))
    }
}

/// `true` or `false`.
pub open spec fn render_bool(b: bool) -> Seq<char> {
    if b {
        seq!['t', 'r', 'u', 'e']
    } else {
        seq!['f', 'a', 'l', 's', 'e']
    }
}

/// Opening of a task object, up to its name: `    { "name": "`.
pub open spec fn task_open() -> Seq<char> {
    seq![' ', ' ', ' ', ' ', '{', ' ', '"', 'n', 'a', 'm', 'e', '"', ':', ' ', '"']
}

/// Between a task's name and its flag: `, "completed": `.
pub open spec fn task_mid() -> Seq<char> {
    seq![',', ' ', '"', 'c', 'o', 'm', 'p', 'l', 'e', 't', 'e', 'd', '"', ':', ' ']
}

/// Opening of a list object, up to its name: `  { "name": "`.
pub open spec fn list_open() -> Seq<char> {
    seq![' ', ' ', '{', ' ', '"', 'n', 'a', 'm', 'e', '"', ':', ' ', '"']
}

/// Between a list's name and its tasks: `, "tasks": `.
pub open spec fn list_mid() -> Seq<char> {
    seq![',', ' ', '"', 't', 'a', 's', 'k', 's', '"', ':', ' ']
}

/// Closing of a task or list object: ` }`.
pub open spec fn obj_end() -> Seq<char> {
    seq![' ', '}']
}

/// An empty array: `[]`.
pub open spec fn arr_empty() -> Seq<char> {
    seq!['[', ']']
}

/// Opening of a non-empty array.
pub open spec fn arr_open() -> Seq<char> {
    seq!['[', '\n']
}

/// Closing of a non-empty task array, with its indentation.
pub open spec fn tasks_close() -> Seq<char> {
    seq!['\n', ' ', ' ', ']']
}

/// Closing of the outer array.
pub open spec fn lists_close() -> Seq<char> {
    seq!['\n', ']']
}

/// Between two array items.
pub open spec fn item_sep() -> Seq<char> {
    seq![',', '\n']
}

/// One rendered task object.
pub open spec fn spec_render_task(t: TaskV) -> Seq<char> {
    task_open() + esc_str(t.name) + seq!['"'] + task_mid() + render_bool(t.completed) + obj_end()
}

/// The rendered items of a non-empty task array, separated by commas.
pub open spec fn spec_render_task_items(ts: Seq<TaskV>) -> Seq<char>
    decreases ts.len(),
{
    if ts.len() <= 1 {
        if ts.len() == 0 {
            Seq::empty()
        } else {
            spec_render_task(ts[0])
        }
    } else {
        spec_render_task(ts[0]) + item_sep() + spec_render_task_items(ts.skip(1))
    }
}

/// A rendered task array.
pub open spec fn spec_render_tasks(ts: Seq<TaskV>) -> Seq<char> {
    if ts.len() == 0 {
        arr_empty()
    } else {
        arr_open() + spec_render_task_items(ts) + tasks_close()
    }
}

/// One rendered list object.
pub open spec fn spec_render_list(l: ListV) -> Seq<char> {
    list_open() + esc_str(l.name) + seq!['"'] + list_mid() + spec_render_tasks(l.tasks)
        + obj_end()
}

/// The rendered items of a non-empty list array, separated by commas.
pub open spec fn spec_render_list_items(ls: Seq<ListV>) -> Seq<char>
    decreases ls.len(),
{
    if ls.len() <= 1 {
        if ls.len() == 0 {
            Seq::empty()
        } else {
            spec_render_list(ls[0])
        }
    } else {
        spec_render_list(ls[0]) + item_sep() + spec_render_list_items(ls.skip(1))
    }
}

/// The full rendered collection.
pub open spec fn spec_render_lists(ls: Seq<ListV>) -> Seq<char> {
    if ls.len() == 0 {
        arr_empty()
    } else {
        arr_open() + spec_render_list_items(ls) + lists_close()
    }
}

/// Appending one character to a name appends its escape to the
/// rendering.
proof fn lemma_esc_push(s: Seq<char>, c: char)
    ensures
        esc_str(s.push(c)) == esc_str(s) + esc_char(c),
    decreases s.len(),
{
    if s.len() == 0 {
        assert(s.push(c).skip(1) =~= Seq::<char>::empty());
        assert(esc_str(Seq::<char>::empty()) == Seq::<char>::empty());
        assert(s.push(c)[0] == c);
        assert(esc_str(s.push(c)) == esc_char(c) + Seq::<char>::empty());
        assert(esc_str(s.push(c)) =~= esc_str(s) + esc_char(c));
    } else {
        assert(s.push(c)[0] == s[0]);
        assert(s.push(c).skip(1) =~= s.skip(1).push(c));
        lemma_esc_push(s.skip(1), c);
        assert(esc_str(s.push(c)) == esc_char(s[0]) + esc_str(s.skip(1).push(c)));
        assert(esc_str(s.push(c)) =~= esc_str(s) + esc_char(c));
    }
}

/// Appending a task to a non-empty item sequence appends a separator
/// and its rendering.
proof fn lemma_task_items_push(ts: Seq<TaskV>, t: TaskV)
    ensures
        ts.len() == 0 ==> spec_render_task_items(ts.push(t)) == spec_render_task(t),
        ts.len() > 0 ==> spec_render_task_items(ts.push(t)) == spec_render_task_items(ts)
            + item_sep() + spec_render_task(t),
    decreases ts.len(),
{
    if ts.len() == 0 {
        assert(ts.push(t)[0] == t);
    } else {
        assert(ts.push(t)[0] == ts[0]);
        assert(ts.push(t).skip(1) =~= ts.skip(1).push(t));
        lemma_task_items_push(ts.skip(1), t);
        assert(spec_render_task_items(ts.push(t)) == spec_render_task(ts[0]) + item_sep()
            + spec_render_task_items(ts.skip(1).push(t)));
        assert(spec_render_task_items(ts.push(t)) =~= spec_render_task_items(ts) + item_sep()
            + spec_render_task(t));
    }
}

/// Appending a list to a non-empty item sequence appends a separator
/// and its rendering.
proof fn lemma_list_items_push(ls: Seq<ListV>, l: ListV)
    ensures
        ls.len() == 0 ==> spec_render_list_items(ls.push(l)) == spec_render_list(l),
        ls.len() > 0 ==> spec_render_list_items(ls.push(l)) == spec_render_list_items(ls)
            + item_sep() + spec_render_list(l),
    decreases ls.len(),
{
    if ls.len() == 0 {
        assert(ls.push(l)[0] == l);
    } else {
        assert(ls.push(l)[0] == ls[0]);
        assert(ls.push(l).skip(1) =~= ls.skip(1).push(l));
        lemma_list_items_push(ls.skip(1), l);
        assert(spec_render_list_items(ls.push(l)) == spec_render_list(ls[0]) + item_sep()
            + spec_render_list_items(ls.skip(1).push(l)));
        assert(spec_render_list_items(ls.push(l)) =~= spec_render_list_items(ls) + item_sep()
            + spec_render_list(l));
    }
}

/// Append a name with `"` and `\` escaped.
fn append_escaped(out: &mut String, name: &str)
    ensures
        final(out)@ == old(out)@ + esc_str(name@),
{
    let n = name.unicode_len();
    let mut i: usize = 0;
    proof {
        assert(name@.take(0) =~= Seq::<char>::empty());
        assert(out@ =~= out@ + esc_str(name@.take(0)));
    }
    while i < n
        invariant
            i <= n,
            n == name@.len(),
            out@ == old(out)@ + esc_str(name@.take(i as int)),
        decreases n - i,
    {
        let c = name.get_char(i);
        if c == '"' || c == '\\' {
            push_char(out, '\\');
            push_char(out, c);
        } else {
            push_char(out, c);
        }
        proof {
            lemma_esc_push(name@.take(i as int), c);
            assert(name@.take(i + 1) =~= name@.take(i as int).push(c));
            assert(out@ =~= old(out)@ + esc_str(name@.take(i + 1)));
        }
        i = i + 1;
    }
    proof {
        assert(name@.take(n as int) =~= name@);
    }
}

/// Append one rendered task object.
fn append_task(out: &mut String, t: &Task)
    ensures
        final(out)@ == old(out)@ + spec_render_task(t@),
{
    proof {
        reveal_strlit("    { \"name\": \"");
        reveal_strlit("\", \"completed\": ");
        reveal_strlit("true");
        reveal_strlit("false");
        reveal_strlit(" }");
        assert(("    { \"name\": \"")@ =~= task_open());
        assert(("\", \"completed\": ")@ =~= seq!['"'] + task_mid());
        assert(("true")@ =~= render_bool(true));
        assert(("false")@ =~= render_bool(false));
        assert((" }")@ =~= obj_end());
    }
    out.append("    { \"name\": \"");
    append_escaped(out, t.name.as_str());
    out.append("\", \"completed\": ");
    if t.completed {
        out.append("true");
    } else {
        out.append("false");
    }
    out.append(" }");
    proof {
        assert(out@ =~= old(out)@ + spec_render_task(t@));
    }
}

/// Append a rendered task array.
fn append_tasks(out: &mut String, tasks: &Vec<Task>)
    ensures
        final(out)@ == old(out)@ + spec_render_tasks(tasks_view(tasks@)),
{
    let ghost tv = tasks_view(tasks@);
    proof {
        reveal_strlit("[]");
        reveal_strlit("[\n");
        reveal_strlit(",\n");
        reveal_strlit("\n  ]");
        assert(("[]")@ =~= arr_empty());
        assert(("[\n")@ =~= arr_open());
        assert((",\n")@ =~= item_sep());
        assert(("\n  ]")@ =~= tasks_close());
    }
    if tasks.len() == 0 {
        out.append("[]");
        proof {
            assert(out@ =~= old(out)@ + spec_render_tasks(tv));
        }
        return ;
    }
    out.append("[\n");
    let mut i: usize = 0;
    while i < tasks.len()
        invariant
            i <= tasks@.len(),
            tv == tasks_view(tasks@),
            ("[\n")@ == arr_open(),
            (",\n")@ == item_sep(),
            i == 0 ==> out@ == old(out)@ + arr_open(),
            i > 0 ==> out@ == old(out)@ + arr_open() + spec_render_task_items(tv.take(i as int)),
        decreases tasks@.len() - i,
    {
        if i > 0 {
            out.append(",\n");
        }
        append_task(out, &tasks[i]);
        proof {
            lemma_task_items_push(tv.take(i as int), tv[i as int]);
            assert(tv.take(i + 1) =~= tv.take(i as int).push(tv[i as int]));
            assert(tasks[i as int]@ == tv[i as int]);
            assert(out@ =~= old(out)@ + arr_open() + spec_render_task_items(tv.take(i + 1)));
        }
        i = i + 1;
    }
    out.append("\n  ]");
    proof {
        assert(tv.take(tasks@.len() as int) =~= tv);
        assert(out@ =~= old(out)@ + spec_render_tasks(tv));
    }
}

/// Append one rendered list object.
fn append_list(out: &mut String, l: &List)
    ensures
        final(out)@ == old(out)@ + spec_render_list(l@),
{
    proof {
        reveal_strlit("  { \"name\": \"");
        reveal_strlit("\", \"tasks\": ");
        reveal_strlit(" }");
        assert(("  { \"name\": \"")@ =~= list_open());
        assert(("\", \"tasks\": ")@ =~= seq!['"'] + list_mid());
        assert((" }")@ =~= obj_end());
    }
    out.append("  { \"name\": \"");
    append_escaped(out, l.name.as_str());
    out.append("\", \"tasks\": ");
    append_tasks(out, &l.tasks);
    out.append(" }");
    proof {
        assert(out@ =~= old(out)@ + spec_render_list(l@));
    }
}

/// Render a whole collection in the persistence format.
pub fn render_lists(lists: &Vec<List>) -> (r: String)
    ensures
        r@ == spec_render_lists(lists_view(lists@)),
{
    let ghost lv = lists_view(lists@);
    proof {
        reveal_strlit("[]");
        reveal_strlit("[\n");
        reveal_strlit(",\n");
        reveal_strlit("\n]");
        assert(("[]")@ =~= arr_empty());
        assert(("[\n")@ =~= arr_open());
        assert((",\n")@ =~= item_sep());
        assert(("\n]")@ =~= lists_close());
    }
    let mut out = String::new();
    if lists.len() == 0 {
        out.append("[]");
        proof {
            assert(out@ =~= spec_render_lists(lv));
        }
        return out;
    }
    out.append("[\n");
    let mut i: usize = 0;
    while i < lists.len()
        invariant
            i <= lists@.len(),
            lv == lists_view(lists@),
            ("[\n")@ == arr_open(),
            (",\n")@ == item_sep(),
            i == 0 ==> out@ == arr_open(),
            i > 0 ==> out@ == arr_open() + spec_render_list_items(lv.take(i as int)),
        decreases lists@.len() - i,
    {
        if i > 0 {
            out.append(",\n");
        }
        append_list(&mut out, &lists[i]);
        proof {
            lemma_list_items_push(lv.take(i as int), lv[i as int]);
            assert(lv.take(i + 1) =~= lv.take(i as int).push(lv[i as int]));
            assert(lists[i as int]@ == lv[i as int]);
            assert(out@ =~= arr_open() + spec_render_list_items(lv.take(i + 1)));
        }
        i = i + 1;
    }
    out.append("\n]");
    proof {
        assert(lv.take(lists@.len() as int) =~= lv);
        assert(out@ =~= spec_render_lists(lv));
    }
    out
}

impl App {
    /// The text the caller must persist: the full rendering of the
    /// current collection.
    pub fn save_lists(&self) -> (r: String)
        ensures
            r@ == spec_render_lists(self@.lists),
    {
        render_lists(&self.lists)
    }
}

/// Consume an expected literal at the front, or refuse.
pub open spec fn expect(s: Seq<char>, p: Seq<char>) -> Option<Seq<char>> {
    if p.is_prefix_of(s) {
        Some(s.skip(p.len() as int))
    } else {
        None
    }
}

/// Consume a name up to and including its closing quote, undoing the
/// escapes; what follows the quote is handed back.
pub open spec fn parse_string_body(s: Seq<char>) -> Option<(Seq<char>, Seq<char>)>
    decreases s.len(),
{
    if s.len() == 0 {
        None
    } else if s[0] == '"' {
        Some((Seq::empty(), s.skip(1)))
    } else if s[0] == '\\' {
        if s.len() >= 2 && (s[1] == '"' || s[1] == '\\') {
            match parse_string_body(s.skip(2)) {
                Some(p) => Some((seq![s[1]] + p.0, p.1)),
                None => None,
            }
        } else {
            None
        }
    } else {
        match parse_string_body(s.skip(1)) {
            Some(p) => Some((seq![s[0]] + p.0, p.1)),
            None => None,
        }
    }
}

/// Consume `true` or `false`.
pub open spec fn parse_bool(s: Seq<char>) -> Option<(bool, Seq<char>)> {
    if render_bool(true).is_prefix_of(s) {
        Some((true, s.skip(4)))
    } else if render_bool(false).is_prefix_of(s) {
        Some((false, s.skip(5)))
    } else {
        None
    }
}

/// Consume one task object.
pub open spec fn parse_task(s: Seq<char>) -> Option<(TaskV, Seq<char>)> {
    match expect(s, task_open()) {
        None => None,
        Some(s1) => match parse_string_body(s1) {
            None => None,
            Some(np) => match expect(np.1, task_mid()) {
                None => None,
                Some(s2) => match parse_bool(s2) {
                    None => None,
                    Some(bp) => match expect(bp.1, obj_end()) {
                        None => None,
                        Some(s3) => Some((TaskV { name: np.0, completed: bp.0 }, s3)),
                    },
                },
            },
        },
    }
}

/// Consume one or more comma-separated task objects.
pub open spec fn parse_task_items(s: Seq<char>) -> Option<(Seq<TaskV>, Seq<char>)>
    decreases s.len(),
{
    match parse_task(s) {
        None => None,
        Some(tp) => if tp.1.len() >= 2 && tp.1[0] == ',' && tp.1[1] == '\n' && tp.1.len()
            <= s.len() {
            match parse_task_items(tp.1.skip(2)) {
                None => None,
                Some(rp) => Some((seq![tp.0] + rp.0, rp.1)),
            }
        } else {
            Some((seq![tp.0], tp.1))
        },
    }
}

/// Consume a task array.
pub open spec fn parse_tasks(s: Seq<char>) -> Option<(Seq<TaskV>, Seq<char>)> {
    if arr_empty().is_prefix_of(s) {
        Some((Seq::empty(), s.skip(2)))
    } else {
        match expect(s, arr_open()) {
            None => None,
            Some(s1) => match parse_task_items(s1) {
                None => None,
                Some(ip) => match expect(ip.1, tasks_close()) {
                    None => None,
                    Some(s2) => Some((ip.0, s2)),
                },
            },
        }
    }
}

/// Consume one list object.
pub open spec fn parse_list(s: Seq<char>) -> Option<(ListV, Seq<char>)> {
    match expect(s, list_open()) {
        None => None,
        Some(s1) => match parse_string_body(s1) {
            None => None,
            Some(np) => match expect(np.1, list_mid()) {
                None => None,
                Some(s2) => match parse_tasks(s2) {
                    None => None,
                    Some(tp) => match expect(tp.1, obj_end()) {
                        None => None,
                        Some(s3) => Some((ListV { name: np.0, tasks: tp.0 }, s3)),
                    },
                },
            },
        },
    }
}

/// Consume one or more comma-separated list objects.
pub open spec fn parse_list_items(s: Seq<char>) -> Option<(Seq<ListV>, Seq<char>)>
    decreases s.len(),
{
    match parse_list(s) {
        None => None,
        Some(lp) => if lp.1.len() >= 2 && lp.1[0] == ',' && lp.1[1] == '\n' && lp.1.len()
            <= s.len() {
            match parse_list_items(lp.1.skip(2)) {
                None => None,
                Some(rp) => Some((seq![lp.0] + rp.0, rp.1)),
            }
        } else {
            Some((seq![lp.0], lp.1))
        },
    }
}

/// Parse a whole persisted text, which must be consumed exactly.
pub open spec fn spec_parse_lists(s: Seq<char>) -> Option<Seq<ListV>> {
    if s.len() == 2 && s[0] == '[' && s[1] == ']' {
        Some(Seq::empty())
    } else {
        match expect(s, arr_open()) {
            None => None,
            Some(s1) => match parse_list_items(s1) {
                None => None,
                Some(lp) => if lp.1.len() == 2 && lp.1[0] == '\n' && lp.1[1] == ']' {
                    Some(lp.0)
                } else {
                    None
                },
            },
        }
    }
}

/// A literal at the front of a text is consumed, and exactly it.
proof fn lemma_expect_prefix(p: Seq<char>, rest: Seq<char>)
    ensures
        expect(p + rest, p) == Some(rest),
{
    assert(p =~= (p + rest).subrange(0, p.len() as int));
    assert((p + rest).skip(p.len() as int) =~= rest);
}

/// A rendered name followed by its closing quote parses back to
/// exactly that name.
proof fn lemma_parse_esc(name: Seq<char>, rest: Seq<char>)
    ensures
        parse_string_body(esc_str(name) + seq!['"'] + rest) == Some((name, rest)),
    decreases name.len(),
{
    let s = esc_str(name) + seq!['"'] + rest;
    if name.len() == 0 {
        assert(esc_str(name) == Seq::<char>::empty());
        assert(s =~= seq!['"'] + rest);
        assert(s[0] == '"');
        assert(s.skip(1) =~= rest);
        assert(Seq::<char>::empty() =~= name);
    } else {
        let c = name[0];
        let tail = esc_str(name.skip(1)) + seq!['"'] + rest;
        assert(esc_str(name) == esc_char(c) + esc_str(name.skip(1)));
        lemma_parse_esc(name.skip(1), rest);
        if c == '"' || c == '\\' {
            assert(s =~= seq!['\\', c] + tail);
            assert(s[0] == '\\');
            assert(s[1] == c);
            assert(s.skip(2) =~= tail);
            assert(seq![s[1]] + name.skip(1) =~= name);
        } else {
            assert(s =~= seq![c] + tail);
            assert(s[0] == c);
            assert(s.skip(1) =~= tail);
            assert(seq![s[0]] + name.skip(1) =~= name);
        }
    }
}

/// A rendered flag parses back to exactly that flag.
proof fn lemma_parse_bool(b: bool, rest: Seq<char>)
    ensures
        parse_bool(render_bool(b) + rest) == Some((b, rest)),
{
    let s = render_bool(b) + rest;
    if b {
        assert(render_bool(true) =~= s.subrange(0, 4));
        assert(s.skip(4) =~= rest);
    } else {
        assert(s[0] == 'f');
        assert(!render_bool(true).is_prefix_of(s));
        assert(render_bool(false) =~= s.subrange(0, 5));
        assert(s.skip(5) =~= rest);
    }
}

/// A rendered task object parses back to exactly that task.
proof fn lemma_parse_task(t: TaskV, rest: Seq<char>)
    ensures
        parse_task(spec_render_task(t) + rest) == Some((t, rest)),
{
    let s = spec_render_task(t) + rest;
    let r1 = esc_str(t.name) + seq!['"'] + (task_mid() + render_bool(t.completed) + obj_end()
        + rest);
    assert(s =~= task_open() + r1);
    lemma_expect_prefix(task_open(), r1);
    lemma_parse_esc(t.name, task_mid() + render_bool(t.completed) + obj_end() + rest);
    let r2 = task_mid() + render_bool(t.completed) + obj_end() + rest;
    assert(r2 =~= task_mid() + (render_bool(t.completed) + (obj_end() + rest)));
    lemma_expect_prefix(task_mid(), render_bool(t.completed) + (obj_end() + rest));
    lemma_parse_bool(t.completed, obj_end() + rest);
    lemma_expect_prefix(obj_end(), rest);
    assert(parse_bool(render_bool(t.completed) + (obj_end() + rest)) == Some(
        (t.completed, obj_end() + rest),
    ));
    assert(TaskV { name: t.name, completed: t.completed } =~= t);
}

/// One or more rendered tasks parse back to exactly those tasks, as
/// long as what follows does not begin like another item.
#[verifier::rlimit(100)]
#[verifier::spinoff_prover]
proof fn lemma_parse_task_items(ts: Seq<TaskV>, rest: Seq<char>)
    requires
        ts.len() > 0,
        !(rest.len() >= 2 && rest[0] == ',' && rest[1] == '\n'),
    ensures
        parse_task_items(spec_render_task_items(ts) + rest) == Some((ts, rest)),
    decreases ts.len(),
{
    let s = spec_render_task_items(ts) + rest;
    if ts.len() == 1 {
        assert(spec_render_task_items(ts) == spec_render_task(ts[0]));
        lemma_parse_task(ts[0], rest);
        assert(seq![ts[0]] =~= ts);
    } else {
        let r1 = item_sep() + spec_render_task_items(ts.skip(1)) + rest;
        assert(s =~= spec_render_task(ts[0]) + r1);
        lemma_parse_task(ts[0], r1);
        assert(r1[0] == ',');
        assert(r1[1] == '\n');
        assert(spec_render_task(ts[0]).len() >= task_open().len());
        assert(r1.len() <= s.len());
        assert(r1.skip(2) =~= spec_render_task_items(ts.skip(1)) + rest);
        lemma_parse_task_items(ts.skip(1), rest);
        assert(seq![ts[0]] + ts.skip(1) =~= ts);
    }
}

/// A rendered task array parses back to exactly those tasks.
proof fn lemma_parse_tasks(ts: Seq<TaskV>, rest: Seq<char>)
    ensures
        parse_tasks(spec_render_tasks(ts) + rest) == Some((ts, rest)),
{
    let s = spec_render_tasks(ts) + rest;
    if ts.len() == 0 {
        assert(arr_empty() =~= s.subrange(0, 2));
        assert(s.skip(2) =~= rest);
        assert(Seq::<TaskV>::empty() =~= ts);
    } else {
        let r1 = spec_render_task_items(ts) + (tasks_close() + rest);
        assert(s =~= arr_open() + r1);
        assert(s[1] == '\n');
        assert(!arr_empty().is_prefix_of(s));
        lemma_expect_prefix(arr_open(), r1);
        lemma_parse_task_items(ts, tasks_close() + rest);
        lemma_expect_prefix(tasks_close(), rest);
    }
}

/// A rendered list object parses back to exactly that list.
proof fn lemma_parse_list(l: ListV, rest: Seq<char>)
    ensures
        parse_list(spec_render_list(l) + rest) == Some((l, rest)),
{
    let s = spec_render_list(l) + rest;
    let r1 = esc_str(l.name) + seq!['"'] + (list_mid() + spec_render_tasks(l.tasks) + obj_end()
        + rest);
    assert(s =~= list_open() + r1);
    lemma_expect_prefix(list_open(), r1);
    lemma_parse_esc(l.name, list_mid() + spec_render_tasks(l.tasks) + obj_end() + rest);
    let r2 = list_mid() + spec_render_tasks(l.tasks) + obj_end() + rest;
    assert(r2 =~= list_mid() + (spec_render_tasks(l.tasks) + (obj_end() + rest)));
    lemma_expect_prefix(list_mid(), spec_render_tasks(l.tasks) + (obj_end() + rest));
    lemma_parse_tasks(l.tasks, obj_end() + rest);
    lemma_expect_prefix(obj_end(), rest);
    assert(ListV { name: l.name, tasks: l.tasks } =~= l);
}

/// One or more rendered lists parse back to exactly those lists, as
/// long as what follows does not begin like another item.
#[verifier::rlimit(100)]
#[verifier::spinoff_prover]
proof fn lemma_parse_list_items(ls: Seq<ListV>, rest: Seq<char>)
    requires
        ls.len() > 0,
        !(rest.len() >= 2 && rest[0] == ',' && rest[1] == '\n'),
    ensures
        parse_list_items(spec_render_list_items(ls) + rest) == Some((ls, rest)),
    decreases ls.len(),
{
    let s = spec_render_list_items(ls) + rest;
    if ls.len() == 1 {
        assert(spec_render_list_items(ls) == spec_render_list(ls[0]));
        lemma_parse_list(ls[0], rest);
        assert(seq![ls[0]] =~= ls);
    } else {
        let r1 = item_sep() + spec_render_list_items(ls.skip(1)) + rest;
        assert(s =~= spec_render_list(ls[0]) + r1);
        lemma_parse_list(ls[0], r1);
        assert(r1[0] == ',');
        assert(r1[1] == '\n');
        assert(spec_render_list(ls[0]).len() >= list_open().len());
        assert(r1.len() <= s.len());
        assert(r1.skip(2) =~= spec_render_list_items(ls.skip(1)) + rest);
        lemma_parse_list_items(ls.skip(1), rest);
        assert(seq![ls[0]] + ls.skip(1) =~= ls);
    }
}

/// Round trip: parsing a rendered collection gives back exactly that
/// collection, order and content preserved.
pub proof fn lemma_save_load_round_trip(ls: Seq<ListV>)
    ensures
        spec_parse_lists(spec_render_lists(ls)) == Some(ls),
{
    let s = spec_render_lists(ls);
    if ls.len() == 0 {
        assert(s == arr_empty());
        assert(Seq::<ListV>::empty() =~= ls);
    } else {
        let r1 = spec_render_list_items(ls) + lists_close();
        assert(s =~= arr_open() + r1);
        assert(spec_render_list_items(ls).len() >= list_open().len());
        assert(s.len() > 2);
        lemma_expect_prefix(arr_open(), r1);
        lemma_parse_list_items(ls, lists_close());
        assert(lists_close().len() == 2);
        assert(lists_close()[0] == '\n');
        assert(lists_close()[1] == ']');
    }
}

/// Consume a literal at position `i`, or refuse.
fn expect_at(s: &str, i: usize, n: usize, pat: &str) -> (r: Option<usize>)
    requires
        n == s@.len(),
        i <= n,
    ensures
        match r {
            Some(j) => i <= j <= n && j - i == pat@.len() && expect(s@.skip(i as int), pat@)
                is Some && expect(s@.skip(i as int), pat@).unwrap() == s@.skip(j as int),
            None => expect(s@.skip(i as int), pat@) is None,
        },
{
    let m = pat.unicode_len();
    if m > n - i {
        proof {
            assert(s@.skip(i as int).len() < pat@.len());
        }
        return None;
    }
    let mut k: usize = 0;
    while k < m
        invariant
            k <= m,
            m == pat@.len(),
            n == s@.len(),
            i <= n,
            m <= n - i,
            forall|t: int| 0 <= t < k ==> s@[i + t] == pat@[t],
        decreases m - k,
    {
        if s.get_char(i + k) != pat.get_char(k) {
            proof {
                assert(s@.skip(i as int)[k as int] == s@[i + k]);
                if pat@.is_prefix_of(s@.skip(i as int)) {
                    assert(pat@[k as int] == s@.skip(i as int).subrange(0, m as int)[k as int]);
                }
            }
            return None;
        }
        k = k + 1;
    }
    proof {
        assert forall|t: int|
            0 <= t < m implies s@.skip(i as int).subrange(0, m as int)[t] == pat@[t] by {
            assert(s@.skip(i as int)[t] == s@[i + t]);
        }
        assert(pat@ =~= s@.skip(i as int).subrange(0, m as int));
        assert(s@.skip(i as int).skip(m as int) =~= s@.skip(i + m));
    }
    Some(i + m)
}

/// Consume a name and its closing quote at position `i`.
#[verifier::rlimit(100)]
#[verifier::spinoff_prover]
fn parse_string_body_at(s: &str, i: usize, n: usize) -> (r: Option<(String, usize)>)
    requires
        n == s@.len(),
        i <= n,
    ensures
        match r {
            Some(p) => i < p.1 <= n && parse_string_body(s@.skip(i as int)) is Some
                && parse_string_body(s@.skip(i as int)).unwrap().0 == p.0@ && parse_string_body(
                s@.skip(i as int),
            ).unwrap().1 == s@.skip(p.1 as int),
            None => parse_string_body(s@.skip(i as int)) is None,
        },
{
    let mut out = String::new();
    let mut j: usize = i;
    proof {
        if parse_string_body(s@.skip(i as int)) is Some {
            assert(out@ + parse_string_body(s@.skip(i as int)).unwrap().0 =~= parse_string_body(
                s@.skip(i as int),
            ).unwrap().0);
        }
    }
    loop
        invariant
            i <= j <= n,
            n == s@.len(),
            parse_string_body(s@.skip(i as int)) is Some <==> parse_string_body(s@.skip(j as int))
                is Some,
            parse_string_body(s@.skip(j as int)) is Some ==> parse_string_body(
                s@.skip(i as int),
            ).unwrap().0 == out@ + parse_string_body(s@.skip(j as int)).unwrap().0,
            parse_string_body(s@.skip(j as int)) is Some ==> parse_string_body(
                s@.skip(i as int),
            ).unwrap().1 == parse_string_body(s@.skip(j as int)).unwrap().1,
        decreases n - j,
    {
        if j >= n {
            proof {
                assert(s@.skip(j as int).len() == 0);
            }
            return None;
        }
        let c = s.get_char(j);
        proof {
            assert(s@.skip(j as int)[0] == s@[j as int]);
            assert(s@.skip(j as int).len() == n - j);
        }
        if c == '"' {
            proof {
                assert(s@.skip(j as int).skip(1) =~= s@.skip(j + 1));
                assert(parse_string_body(s@.skip(j as int)).unwrap().0 == Seq::<char>::empty());
                assert(out@ + Seq::<char>::empty() =~= out@);
            }
            return Some((out, j + 1));
        } else if c == '\\' {
            if n - j >= 2 {
                let c2 = s.get_char(j + 1);
                proof {
                    assert(s@.skip(j as int)[1] == s@[j + 1]);
                }
                if c2 == '"' || c2 == '\\' {
                    let ghost prev = out@;
                    push_char(&mut out, c2);
                    proof {
                        assert(s@.skip(j as int).skip(2) =~= s@.skip(j + 2));
                        if parse_string_body(s@.skip(j + 2)) is Some {
                            let p0 = parse_string_body(s@.skip(j + 2)).unwrap().0;
                            assert(parse_string_body(s@.skip(j as int)).unwrap().0 == seq![c2]
                                + p0);
                            assert(prev.push(c2) + p0 =~= prev + (seq![c2] + p0));
                        }
                    }
                    j = j + 2;
                } else {
                    return None;
                }
            } else {
                return None;
            }
        } else {
            let ghost prev = out@;
            push_char(&mut out, c);
            proof {
                assert(s@.skip(j as int).skip(1) =~= s@.skip(j + 1));
                if parse_string_body(s@.skip(j + 1)) is Some {
                    let p0 = parse_string_body(s@.skip(j + 1)).unwrap().0;
                    assert(parse_string_body(s@.skip(j as int)).unwrap().0 == seq![c] + p0);
                    assert(prev.push(c) + p0 =~= prev + (seq![c] + p0));
                }
            }
            j = j + 1;
        }
    }
}

/// Consume `true` or `false` at position `i`.
fn parse_bool_at(s: &str, i: usize, n: usize) -> (r: Option<(bool, usize)>)
    requires
        n == s@.len(),
        i <= n,
    ensures
        match r {
            Some(p) => i < p.1 <= n && parse_bool(s@.skip(i as int)) is Some && parse_bool(
                s@.skip(i as int),
            ).unwrap().0 == p.0 && parse_bool(s@.skip(i as int)).unwrap().1 == s@.skip(
                p.1 as int,
            ),
            None => parse_bool(s@.skip(i as int)) is None,
        },
{
    proof {
        reveal_strlit("true");
        reveal_strlit("false");
        assert(("true")@ =~= render_bool(true));
        assert(("false")@ =~= render_bool(false));
    }
    if let Some(j) = expect_at(s, i, n, "true") {
        return Some((true, j));
    }
    if let Some(j) = expect_at(s, i, n, "false") {
        return Some((false, j));
    }
    None
}

/// Consume one task object at position `i`.
fn parse_task_at(s: &str, i: usize, n: usize) -> (r: Option<(Task, usize)>)
    requires
        n == s@.len(),
        i <= n,
    ensures
        match r {
            Some(p) => i < p.1 <= n && parse_task(s@.skip(i as int)) is Some && parse_task(
                s@.skip(i as int),
            ).unwrap().0 == p.0@ && parse_task(s@.skip(i as int)).unwrap().1 == s@.skip(
                p.1 as int,
            ),
            None => parse_task(s@.skip(i as int)) is None,
        },
{
    proof {
        reveal_strlit("    { \"name\": \"");
        reveal_strlit(", \"completed\": ");
        reveal_strlit(" }");
        assert(("    { \"name\": \"")@ =~= task_open());
        assert((", \"completed\": ")@ =~= task_mid());
        assert((" }")@ =~= obj_end());
    }
    let j1 = match expect_at(s, i, n, "    { \"name\": \"") {
        Some(j) => j,
        None => {
            return None;
        },
    };
    let np = match parse_string_body_at(s, j1, n) {
        Some(p) => p,
        None => {
            return None;
        },
    };
    let j2 = np.1;
    let j3 = match expect_at(s, j2, n, ", \"completed\": ") {
        Some(j) => j,
        None => {
            return None;
        },
    };
    let bp = match parse_bool_at(s, j3, n) {
        Some(p) => p,
        None => {
            return None;
        },
    };
    let j4 = bp.1;
    let j5 = match expect_at(s, j4, n, " }") {
        Some(j) => j,
        None => {
            return None;
        },
    };
    Some((Task { name: np.0, completed: bp.0 }, j5))
}

/// Consume a task array at position `i`.
#[verifier::rlimit(100)]
#[verifier::spinoff_prover]
fn parse_tasks_at(s: &str, i: usize, n: usize) -> (r: Option<(Vec<Task>, usize)>)
    requires
        n == s@.len(),
        i <= n,
    ensures
        match r {
            Some(p) => i < p.1 <= n && parse_tasks(s@.skip(i as int)) is Some && parse_tasks(
                s@.skip(i as int),
            ).unwrap().0 == tasks_view(p.0@) && parse_tasks(s@.skip(i as int)).unwrap().1
                == s@.skip(p.1 as int),
            None => parse_tasks(s@.skip(i as int)) is None,
        },
{
    proof {
        reveal_strlit("[]");
        reveal_strlit("[\n");
        reveal_strlit("\n  ]");
        assert(("[]")@ =~= arr_empty());
        assert(("[\n")@ =~= arr_open());
        assert(("\n  ]")@ =~= tasks_close());
    }
    if let Some(j) = expect_at(s, i, n, "[]") {
        let empty_tasks: Vec<Task> = Vec::new();
        proof {
            assert(arr_empty().is_prefix_of(s@.skip(i as int)));
            assert(s@.skip(i as int).skip(2) =~= s@.skip(j as int));
            assert(tasks_view(empty_tasks@) =~= Seq::<TaskV>::empty());
        }
        return Some((empty_tasks, j));
    }
    let j0 = match expect_at(s, i, n, "[\n") {
        Some(j) => j,
        None => {
            return None;
        },
    };
    let mut tasks: Vec<Task> = Vec::new();
    let mut j: usize = j0;
    proof {
        if parse_task_items(s@.skip(j0 as int)) is Some {
            assert(tasks_view(tasks@) + parse_task_items(s@.skip(j0 as int)).unwrap().0
                =~= parse_task_items(s@.skip(j0 as int)).unwrap().0);
        }
    }
    loop
        invariant
            i <= j0 <= j <= n,
            n == s@.len(),
            !arr_empty().is_prefix_of(s@.skip(i as int)),
            expect(s@.skip(i as int), arr_open()) is Some,
            expect(s@.skip(i as int), arr_open()).unwrap() == s@.skip(j0 as int),
            ("\n  ]")@ == tasks_close(),
            parse_task_items(s@.skip(j0 as int)) is Some <==> parse_task_items(s@.skip(j as int))
                is Some,
            parse_task_items(s@.skip(j as int)) is Some ==> parse_task_items(
                s@.skip(j0 as int),
            ).unwrap().0 == tasks_view(tasks@) + parse_task_items(s@.skip(j as int)).unwrap().0,
            parse_task_items(s@.skip(j as int)) is Some ==> parse_task_items(
                s@.skip(j0 as int),
            ).unwrap().1 == parse_task_items(s@.skip(j as int)).unwrap().1,
        decreases n - j,
    {
        let tp = match parse_task_at(s, j, n) {
            Some(p) => p,
            None => {
                return None;
            },
        };
        let j2 = tp.1;
        let ghost prev = tasks@;
        tasks.push(tp.0);
        proof {
            assert(tasks_view(tasks@) =~= tasks_view(prev).push(tp.0@));
        }
        if n - j2 >= 2 && s.get_char(j2) == ',' && {
            let c2 = s.get_char(j2 + 1);
            c2 == '\n'
        } {
            proof {
                let r = s@.skip(j2 as int);
                assert(r[0] == s@[j2 as int]);
                assert(r[1] == s@[j2 + 1]);
                assert(r.len() == n - j2);
                assert(r.len() <= s@.skip(j as int).len());
                assert(r.skip(2) =~= s@.skip(j2 + 2));
                if parse_task_items(s@.skip(j2 + 2)) is Some {
                    let rp0 = parse_task_items(s@.skip(j2 + 2)).unwrap().0;
                    assert(parse_task_items(s@.skip(j as int)).unwrap().0 == seq![tp.0@] + rp0);
                    assert(tasks_view(prev).push(tp.0@) + rp0 =~= tasks_view(prev) + (seq![tp.0@]
                        + rp0));
                }
            }
            j = j2 + 2;
        } else {
            proof {
                let r = s@.skip(j2 as int);
                assert(r.len() == n - j2);
                if r.len() >= 2 {
                    assert(r[0] == s@[j2 as int]);
                    assert(r[1] == s@[j2 + 1]);
                }
                assert(parse_task_items(s@.skip(j as int)).unwrap().0 == seq![tp.0@]);
                assert(tasks_view(prev).push(tp.0@) =~= tasks_view(prev) + seq![tp.0@]);
            }
            let j3 = match expect_at(s, j2, n, "\n  ]") {
                Some(x) => x,
                None => {
                    return None;
                },
            };
            return Some((tasks, j3));
        }
    }
}

/// Consume one list object at position `i`.
fn parse_list_at(s: &str, i: usize, n: usize) -> (r: Option<(List, usize)>)
    requires
        n == s@.len(),
        i <= n,
    ensures
        match r {
            Some(p) => i < p.1 <= n && parse_list(s@.skip(i as int)) is Some && parse_list(
                s@.skip(i as int),
            ).unwrap().0 == p.0@ && parse_list(s@.skip(i as int)).unwrap().1 == s@.skip(
                p.1 as int,
            ),
            None => parse_list(s@.skip(i as int)) is None,
        },
{
    proof {
        reveal_strlit("  { \"name\": \"");
        reveal_strlit(", \"tasks\": ");
        reveal_strlit(" }");
        assert(("  { \"name\": \"")@ =~= list_open());
        assert((", \"tasks\": ")@ =~= list_mid());
        assert((" }")@ =~= obj_end());
    }
    let j1 = match expect_at(s, i, n, "  { \"name\": \"") {
        Some(j) => j,
        None => {
            return None;
        },
    };
    let np = match parse_string_body_at(s, j1, n) {
        Some(p) => p,
        None => {
            return None;
        },
    };
    let j2 = np.1;
    let j3 = match expect_at(s, j2, n, ", \"tasks\": ") {
        Some(j) => j,
        None => {
            return None;
        },
    };
    let tp = match parse_tasks_at(s, j3, n) {
        Some(p) => p,
        None => {
            return None;
        },
    };
    let j4 = tp.1;
    let j5 = match expect_at(s, j4, n, " }") {
        Some(j) => j,
        None => {
            return None;
        },
    };
    Some((List { name: np.0, tasks: tp.0 }, j5))
}

/// Parse a persisted text. `None` means the text is not a rendering of
/// any collection: the storage is corrupt.
#[verifier::rlimit(100)]
#[verifier::spinoff_prover]
pub fn parse_lists(s: &str) -> (r: Option<Vec<List>>)
    ensures
        r is Some <==> spec_parse_lists(s@) is Some,
        r is Some ==> spec_parse_lists(s@).unwrap() == lists_view(r.unwrap()@),
{
    let n = s.unicode_len();
    proof {
        reveal_strlit("[\n");
        assert(("[\n")@ =~= arr_open());
        assert(s@.skip(0) =~= s@);
    }
    if n == 2 && s.get_char(0) == '[' && {
        let c1 = s.get_char(1);
        c1 == ']'
    } {
        let empty_lists: Vec<List> = Vec::new();
        proof {
            assert(lists_view(empty_lists@) =~= Seq::<ListV>::empty());
        }
        return Some(empty_lists);
    }
    let j0 = match expect_at(s, 0, n, "[\n") {
        Some(j) => j,
        None => {
            return None;
        },
    };
    let mut lists: Vec<List> = Vec::new();
    let mut j: usize = j0;
    proof {
        if parse_list_items(s@.skip(j0 as int)) is Some {
            assert(lists_view(lists@) + parse_list_items(s@.skip(j0 as int)).unwrap().0
                =~= parse_list_items(s@.skip(j0 as int)).unwrap().0);
        }
    }
    loop
        invariant
            j0 <= j <= n,
            n == s@.len(),
            !(s@.len() == 2 && s@[0] == '[' && s@[1] == ']'),
            expect(s@, arr_open()) is Some,
            expect(s@, arr_open()).unwrap() == s@.skip(j0 as int),
            parse_list_items(s@.skip(j0 as int)) is Some <==> parse_list_items(s@.skip(j as int))
                is Some,
            parse_list_items(s@.skip(j as int)) is Some ==> parse_list_items(
                s@.skip(j0 as int),
            ).unwrap().0 == lists_view(lists@) + parse_list_items(s@.skip(j as int)).unwrap().0,
            parse_list_items(s@.skip(j as int)) is Some ==> parse_list_items(
                s@.skip(j0 as int),
            ).unwrap().1 == parse_list_items(s@.skip(j as int)).unwrap().1,
        decreases n - j,
    {
        let lp = match parse_list_at(s, j, n) {
            Some(p) => p,
            None => {
                return None;
            },
        };
        let j2 = lp.1;
        let ghost prev = lists@;
        lists.push(lp.0);
        proof {
            assert(lists_view(lists@) =~= lists_view(prev).push(lp.0@));
        }
        if n - j2 >= 2 && s.get_char(j2) == ',' && {
            let c2 = s.get_char(j2 + 1);
            c2 == '\n'
        } {
            proof {
                let r = s@.skip(j2 as int);
                assert(r[0] == s@[j2 as int]);
                assert(r[1] == s@[j2 + 1]);
                assert(r.len() == n - j2);
                assert(r.len() <= s@.skip(j as int).len());
                assert(r.skip(2) =~= s@.skip(j2 + 2));
                if parse_list_items(s@.skip(j2 + 2)) is Some {
                    let rp0 = parse_list_items(s@.skip(j2 + 2)).unwrap().0;
                    assert(parse_list_items(s@.skip(j as int)).unwrap().0 == seq![lp.0@] + rp0);
                    assert(lists_view(prev).push(lp.0@) + rp0 =~= lists_view(prev) + (seq![lp.0@]
                        + rp0));
                }
            }
            j = j2 + 2;
        } else {
            proof {
                let r = s@.skip(j2 as int);
                assert(r.len() == n - j2);
                if r.len() >= 2 {
                    assert(r[0] == s@[j2 as int]);
                    assert(r[1] == s@[j2 + 1]);
                }
                assert(parse_list_items(s@.skip(j as int)).unwrap().0 == seq![lp.0@]);
                assert(lists_view(prev).push(lp.0@) =~= lists_view(prev) + seq![lp.0@]);
            }
            if n - j2 == 2 && s.get_char(j2) == '\n' && {
                let c2 = s.get_char(j2 + 1);
                c2 == ']'
            } {
                proof {
                    let r = s@.skip(j2 as int);
                    assert(r.len() == 2);
                    assert(r[0] == s@[j2 as int]);
                    assert(r[1] == s@[j2 + 1]);
                }
                return Some(lists);
            } else {
                proof {
                    let r = s@.skip(j2 as int);
                    assert(r.len() == n - j2);
                    if r.len() == 2 {
                        assert(r[0] == s@[j2 as int]);
                        assert(r[1] == s@[j2 + 1]);
                    }
                }
                return None;
            }
        }
    }
}

/// Load a collection from persisted text, treating anything
/// unparsable as corrupt storage: the result is then empty.
pub fn load_lists(content: &str) -> (r: Vec<List>)
    ensures
        spec_parse_lists(content@) is Some ==> lists_view(r@) == spec_parse_lists(
            content@,
        ).unwrap(),
        spec_parse_lists(content@) is None ==> r@.len() == 0,
{
    match parse_lists(content) {
        Some(lists) => lists,
        None => Vec::new(),
    }
}

} // verus!
