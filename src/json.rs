//! The result tree that agents hand back, and its canonical text.
use vstd::prelude::*;
use vstd::std_specs::vec::axiom_vec_index_decreases;
use crate::text::chars_of;

verus! {

broadcast use axiom_vec_index_decreases;

/// A weakly typed result: objects, arrays, strings, numbers, booleans, null.
///
/// A number keeps the decimal text it was written with. An object is a map
/// from names to values; its canonical form (see `canonical`) holds the fields
/// in ascending order of their names, each name once.
#[derive(Debug)]
pub enum Json {
    Null,
    Bool(bool),
    Number(String),
    Str(String),
    Array(Vec<Json>),
    Object(Vec<(String, Json)>),
}

impl Clone for Json {
    /// A deep copy, with the same canonical text.
    fn clone(&self) -> (r: Self)
        ensures
            render(r) == render(*self),
            canonical(r) == canonical(*self),
    {
        copy_json(self)
    }
}

fn copy_json(j: &Json) -> (r: Json)
    ensures
        render(r) == render(*j),
        canonical(r) == canonical(*j),
    decreases j,
{
    match j {
        Json::Null => Json::Null,
        Json::Bool(b) => Json::Bool(*b),
        Json::Number(t) => Json::Number(copy_string(t)),
        Json::Str(s) => Json::Str(copy_string(s)),
        Json::Array(items) => {
            let mut out: Vec<Json> = Vec::new();
            let mut i: usize = 0;
            while i < items.len()
                invariant
                    i <= items@.len(),
                    out@.len() == i,
                    *j == Json::Array(*items),
                    forall|k: int| 0 <= k < i ==> render(#[trigger] out@[k]) == render(items@[k])
                        && canonical(out@[k]) == canonical(items@[k]),
                decreases items@.len() - i,
            {
                proof {
                    assert(decreases_to!(*items => items[i as int]));
                    assert(decreases_to!(*j => (*j)->Array_0));
                    assert(decreases_to!(*j => items[i as int]));
                }
                let c = copy_json(&items[i]);
                out.push(c);
                i = i + 1;
            }
            proof {
                lemma_same_elements(out, *items, out@.len());
            }
            Json::Array(out)
        },
        Json::Object(fields) => {
            let mut out: Vec<(String, Json)> = Vec::new();
            let mut i: usize = 0;
            while i < fields.len()
                invariant
                    i <= fields@.len(),
                    out@.len() == i,
                    *j == Json::Object(*fields),
                    forall|k: int|
                        0 <= k < i ==> (#[trigger] out@[k]).0@ == fields@[k].0@ && render(
                            out@[k].1,
                        ) == render(fields@[k].1) && canonical(out@[k].1) == canonical(
                            fields@[k].1,
                        ),
                decreases fields@.len() - i,
            {
                proof {
                    assert(decreases_to!(*fields => fields[i as int]));
                    assert(decreases_to!(*j => (*j)->Object_0));
                    assert(decreases_to!(fields[i as int] => fields[i as int].1));
                    assert(decreases_to!(*j => fields[i as int].1));
                }
                let name = copy_string(&fields[i].0);
                let value = copy_json(&fields[i].1);
                out.push((name, value));
                i = i + 1;
            }
            proof {
                lemma_same_fields(out, *fields, out@.len());
            }
            Json::Object(out)
        },
    }
}

fn copy_string(s: &String) -> (r: String)
    ensures
        r@ == s@,
{
    String::from_str(s.as_str())
}

proof fn lemma_same_elements(a: Vec<Json>, b: Vec<Json>, n: nat)
    requires
        a.len() == b.len(),
        n <= a.len(),
        forall|k: int| 0 <= k < a.len() ==> render(#[trigger] a@[k]) == render(b@[k])
            && canonical(a@[k]) == canonical(b@[k]),
    ensures
        render_elements(a, n) == render_elements(b, n),
        canonical_elements(a, n) == canonical_elements(b, n),
    decreases n,
{
    if n > 0 {
        lemma_same_elements(a, b, (n - 1) as nat);
        assert(render(a@[n - 1]) == render(b@[n - 1]));
        assert(render(a@[0]) == render(b@[0]));
    }
}

proof fn lemma_same_fields(a: Vec<(String, Json)>, b: Vec<(String, Json)>, n: nat)
    requires
        a.len() == b.len(),
        n <= a.len(),
        forall|k: int|
            0 <= k < a.len() ==> (#[trigger] a@[k]).0@ == b@[k].0@ && render(a@[k].1) == render(
                b@[k].1,
            ) && canonical(a@[k].1) == canonical(b@[k].1),
    ensures
        render_fields(a, n) == render_fields(b, n),
        canonical_fields(a, n) == canonical_fields(b, n),
    decreases n,
{
    if n > 0 {
        lemma_same_fields(a, b, (n - 1) as nat);
        assert(a@[n - 1].0@ == b@[n - 1].0@);
        assert(a@[0].0@ == b@[0].0@);
        if n >= 2 {
            assert(a@[n - 2].0@ == b@[n - 2].0@);
        }
    }
}

/// The value of the first field named `key`, if any.
pub open spec fn lookup(fields: Seq<(String, Json)>, key: Seq<char>) -> Option<Json>
    decreases fields.len(),
{
    if fields.len() == 0 {
        None
    } else if fields[0].0@ == key {
        Some(fields[0].1)
    } else {
        lookup(fields.drop_first(), key)
    }
}

pub open spec fn hex_digit(v: nat) -> char {
    if v < 10 {
        ((48 + v) as u8) as char
    } else {
        ((87 + v) as u8) as char
    }
}

/// How one character of a string appears between the quotes.
pub open spec fn escape_char(c: char) -> Seq<char> {
    if c == '"' {
        seq!['\\', '"']
    } else if c == '\\' {
        seq!['\\', '\\']
    } else if c == '\n' {
        seq!['\\', 'n']
    } else if c == '\r' {
        seq!['\\', 'r']
    } else if c == '\t' {
        seq!['\\', 't']
    } else if c == '\u{8}' {
        seq!['\\', 'b']
    } else if c == '\u{c}' {
        seq!['\\', 'f']
    } else if (c as u32) < 0x20 {
        seq!['\\', 'u', '0', '0', hex_digit((c as u32 / 16) as nat), hex_digit((c as u32 % 16) as nat)]
    } else {
        seq![c]
    }
}

pub open spec fn escaped(s: Seq<char>) -> Seq<char>
    decreases s.len(),
{
    if s.len() == 0 {
        Seq::empty()
    } else {
        escaped(s.drop_last()) + escape_char(s.last())
    }
}

/// A string literal: the escaped text between double quotes.
pub open spec fn quoted(s: Seq<char>) -> Seq<char> {
    seq!['"'] + escaped(s) + seq!['"']
}

/// The compact text of a result: no white space between tokens, elements and
/// fields in their stored order. For a `canonical` result that is ascending
/// key order, so results that hold the same maps have the same text.
pub open spec fn render(j: Json) -> Seq<char>
    decreases j, 0nat,
{
    match j {
        Json::Null => seq!['n', 'u', 'l', 'l'],
        Json::Bool(b) => if b {
            seq!['t', 'r', 'u', 'e']
        } else {
            seq!['f', 'a', 'l', 's', 'e']
        },
        Json::Number(t) => t@,
        Json::Str(s) => quoted(s@),
        Json::Array(items) => seq!['['] + render_elements(items, items@.len()) + seq![']'],
        Json::Object(fields) => seq!['{'] + render_fields(fields, fields@.len()) + seq!['}'],
    }
}

/// The first `n` elements, separated by commas.
pub open spec fn render_elements(items: Vec<Json>, n: nat) -> Seq<char>
    decreases items, n,
{
    if n == 0 || n > items.len() {
        Seq::empty()
    } else if n == 1 {
        render(items[0])
    } else {
        render_elements(items, (n - 1) as nat) + seq![','] + render(items[n - 1])
    }
}

/// The first `n` fields as `"name":value`, separated by commas.
pub open spec fn render_fields(fields: Vec<(String, Json)>, n: nat) -> Seq<char>
    decreases fields, n,
{
    if n == 0 || n > fields.len() {
        Seq::empty()
    } else if n == 1 {
        quoted(fields[0].0@) + seq![':'] + render(fields[0].1)
    } else {
        render_fields(fields, (n - 1) as nat) + seq![','] + quoted(fields[n - 1].0@) + seq![':']
            + render(fields[n - 1].1)
    }
}


/// `a` comes strictly before `b` when their characters are compared by code
/// point, a proper prefix first: the order of a map keyed by strings.
pub open spec fn key_less(a: Seq<char>, b: Seq<char>) -> bool
    decreases a.len(),
{
    if b.len() == 0 {
        false
    } else if a.len() == 0 {
        true
    } else if a[0] != b[0] {
        a[0] < b[0]
    } else {
        key_less(a.drop_first(), b.drop_first())
    }
}

/// Every object in the tree holds its fields in strictly ascending order of
/// their names, so each name at most once.
pub open spec fn canonical(j: Json) -> bool
    decreases j, 0nat,
{
    match j {
        Json::Array(items) => canonical_elements(items, items@.len()),
        Json::Object(fields) => canonical_fields(fields, fields@.len()),
        _ => true,
    }
}

/// The first `n` elements are canonical.
pub open spec fn canonical_elements(items: Vec<Json>, n: nat) -> bool
    decreases items, n,
{
    if n == 0 || n > items.len() {
        true
    } else {
        canonical_elements(items, (n - 1) as nat) && canonical(items[n - 1])
    }
}

/// The first `n` fields have canonical values and strictly ascending names.
pub open spec fn canonical_fields(fields: Vec<(String, Json)>, n: nat) -> bool
    decreases fields, n,
{
    if n == 0 || n > fields.len() {
        true
    } else {
        &&& canonical_fields(fields, (n - 1) as nat)
        &&& canonical(fields[n - 1].1)
        &&& (n == 1 || key_less(fields[n - 2].0@, fields[n - 1].0@))
    }
}

fn keys_ascending(a: &str, b: &str) -> (r: bool)
    ensures
        r == key_less(a@, b@),
{
    let x = chars_of(a);
    let y = chars_of(b);
    let mut i: usize = 0;
    assert(x@.subrange(0, x@.len() as int) =~= x@);
    assert(y@.subrange(0, y@.len() as int) =~= y@);
    while i < x.len() && i < y.len() && x[i] == y[i]
        invariant
            i <= x@.len(),
            i <= y@.len(),
            x@ == a@,
            y@ == b@,
            key_less(a@, b@) == key_less(x@.subrange(i as int, x@.len() as int), y@.subrange(
                i as int,
                y@.len() as int,
            )),
        decreases x@.len() - i,
    {
        let ghost xs = x@.subrange(i as int, x@.len() as int);
        let ghost ys = y@.subrange(i as int, y@.len() as int);
        assert(xs.drop_first() =~= x@.subrange(i + 1, x@.len() as int));
        assert(ys.drop_first() =~= y@.subrange(i + 1, y@.len() as int));
        i = i + 1;
    }
    let ghost xs = x@.subrange(i as int, x@.len() as int);
    let ghost ys = y@.subrange(i as int, y@.len() as int);
    if i == y.len() {
        false
    } else if i == x.len() {
        true
    } else {
        assert(xs[0] == x@[i as int] && ys[0] == y@[i as int]);
        x[i] < y[i]
    }
}

/// Whether the result is in canonical form.
pub fn is_canonical(j: &Json) -> (r: bool)
    ensures
        r == canonical(*j),
    decreases j,
{
    match j {
        Json::Array(items) => {
            let mut i: usize = 0;
            while i < items.len()
                invariant
                    i <= items@.len(),
                    *j == Json::Array(*items),
                    canonical_elements(*items, i as nat),
                decreases items@.len() - i,
            {
                proof {
                    assert(decreases_to!(*items => items[i as int]));
                    assert(decreases_to!(*j => (*j)->Array_0));
                    assert(decreases_to!(*j => items[i as int]));
                }
                if !is_canonical(&items[i]) {
                    proof {
                        if canonical_elements(*items, items@.len()) {
                            lemma_elements_prefix(*items, (i + 1) as nat, items@.len());
                        }
                    }
                    return false;
                }
                i = i + 1;
            }
            true
        },
        Json::Object(fields) => {
            let mut i: usize = 0;
            while i < fields.len()
                invariant
                    i <= fields@.len(),
                    *j == Json::Object(*fields),
                    canonical_fields(*fields, i as nat),
                decreases fields@.len() - i,
            {
                proof {
                    assert(decreases_to!(*fields => fields[i as int]));
                    assert(decreases_to!(*j => (*j)->Object_0));
                    assert(decreases_to!(fields[i as int] => fields[i as int].1));
                    assert(decreases_to!(*j => fields[i as int].1));
                }
                let ok = is_canonical(&fields[i].1) && (i == 0 || keys_ascending(
                    fields[i - 1].0.as_str(),
                    fields[i].0.as_str(),
                ));
                if !ok {
                    proof {
                        if canonical_fields(*fields, fields@.len()) {
                            lemma_fields_prefix(*fields, (i + 1) as nat, fields@.len());
                        }
                    }
                    return false;
                }
                i = i + 1;
            }
            true
        },
        _ => true,
    }
}

proof fn lemma_elements_prefix(items: Vec<Json>, m: nat, n: nat)
    requires
        m <= n <= items.len(),
        canonical_elements(items, n),
    ensures
        canonical_elements(items, m),
    decreases n,
{
    if m < n {
        lemma_elements_prefix(items, m, (n - 1) as nat);
    }
}

proof fn lemma_fields_prefix(fields: Vec<(String, Json)>, m: nat, n: nat)
    requires
        m <= n <= fields.len(),
        canonical_fields(fields, n),
    ensures
        canonical_fields(fields, m),
    decreases n,
{
    if m < n {
        lemma_fields_prefix(fields, m, (n - 1) as nat);
    }
}

fn hex_char(v: u32) -> (r: char)
    requires
        v < 16,
    ensures
        r == hex_digit(v as nat),
{
    if v < 10 {
        ((48 + v) as u8) as char
    } else {
        ((87 + v) as u8) as char
    }
}

fn push_escaped_char(out: &mut Vec<char>, c: char)
    ensures
        final(out)@ == old(out)@ + escape_char(c),
{
    if c == '"' || c == '\\' {
        out.push('\\');
        out.push(c);
    } else if c == '\n' {
        out.push('\\');
        out.push('n');
    } else if c == '\r' {
        out.push('\\');
        out.push('r');
    } else if c == '\t' {
        out.push('\\');
        out.push('t');
    } else if c == '\u{8}' {
        out.push('\\');
        out.push('b');
    } else if c == '\u{c}' {
        out.push('\\');
        out.push('f');
    } else if (c as u32) < 0x20 {
        out.push('\\');
        out.push('u');
        out.push('0');
        out.push('0');
        out.push(hex_char(c as u32 / 16));
        out.push(hex_char(c as u32 % 16));
    } else {
        out.push(c);
    }
    assert(final(out)@ =~= old(out)@ + escape_char(c));
}

fn push_chars(out: &mut Vec<char>, s: &str)
    ensures
        final(out)@ == old(out)@ + s@,
{
    let cs = chars_of(s);
    let mut i: usize = 0;
    while i < cs.len()
        invariant
            i <= cs@.len(),
            cs@ == s@,
            out@ == old(out)@ + cs@.subrange(0, i as int),
        decreases cs@.len() - i,
    {
        out.push(cs[i]);
        assert(cs@.subrange(0, i + 1) =~= cs@.subrange(0, i as int).push(cs@[i as int]));
        i = i + 1;
    }
    assert(cs@.subrange(0, cs@.len() as int) =~= cs@);
}

fn push_quoted(out: &mut Vec<char>, s: &str)
    ensures
        final(out)@ == old(out)@ + quoted(s@),
{
    let cs = chars_of(s);
    out.push('"');
    let ghost start = out@;
    let mut i: usize = 0;
    while i < cs.len()
        invariant
            i <= cs@.len(),
            cs@ == s@,
            start == old(out)@ + seq!['"'],
            out@ == start + escaped(cs@.subrange(0, i as int)),
        decreases cs@.len() - i,
    {
        push_escaped_char(out, cs[i]);
        assert(cs@.subrange(0, i + 1).drop_last() =~= cs@.subrange(0, i as int));
        i = i + 1;
    }
    out.push('"');
    assert(cs@.subrange(0, cs@.len() as int) =~= cs@);
    assert(out@ =~= old(out)@ + quoted(s@));
}

fn render_into(j: &Json, out: &mut Vec<char>)
    ensures
        final(out)@ == old(out)@ + render(*j),
    decreases j,
{
    match j {
        Json::Null => {
            out.push('n');
            out.push('u');
            out.push('l');
            out.push('l');
        },
        Json::Bool(b) => {
            if *b {
                out.push('t');
                out.push('r');
                out.push('u');
                out.push('e');
            } else {
                out.push('f');
                out.push('a');
                out.push('l');
                out.push('s');
                out.push('e');
            }
        },
        Json::Number(t) => {
            push_chars(out, t.as_str());
        },
        Json::Str(s) => {
            push_quoted(out, s.as_str());
        },
        Json::Array(items) => {
            out.push('[');
            let ghost start = out@;
            let mut i: usize = 0;
            while i < items.len()
                invariant
                    i <= items@.len(),
                    start == old(out)@ + seq!['['],
                    *j == Json::Array(*items),
                    out@ == start + render_elements(*items, i as nat),
                decreases items@.len() - i,
            {
                if i > 0 {
                    out.push(',');
                }
                proof {
                    assert(decreases_to!(*items => items[i as int]));
                    assert(decreases_to!(*j => (*j)->Array_0));
                    assert(decreases_to!(*j => items[i as int]));
                }
                render_into(&items[i], out);
                i = i + 1;
            }
            out.push(']');
        },
        Json::Object(fields) => {
            out.push('{');
            let ghost start = out@;
            let mut i: usize = 0;
            while i < fields.len()
                invariant
                    i <= fields@.len(),
                    start == old(out)@ + seq!['{'],
                    *j == Json::Object(*fields),
                    out@ == start + render_fields(*fields, i as nat),
                decreases fields@.len() - i,
            {
                if i > 0 {
                    out.push(',');
                }
                push_quoted(out, fields[i].0.as_str());
                out.push(':');
                proof {
                    assert(decreases_to!(*fields => fields[i as int]));
                    assert(decreases_to!(*j => (*j)->Object_0));
                    assert(decreases_to!(fields[i as int] => fields[i as int].1));
                    assert(decreases_to!(*j => fields[i as int].1));
                }
                render_into(&fields[i].1, out);
                i = i + 1;
            }
            out.push('}');
        },
    }
    assert(final(out)@ =~= old(out)@ + render(*j));
}

/// The canonical text of a result.
pub fn render_text(j: &Json) -> (r: Vec<char>)
    ensures
        r@ == render(*j),
{
    let mut out: Vec<char> = Vec::new();
    render_into(j, &mut out);
    assert(out@ =~= render(*j));
    out
}

} // verus!
