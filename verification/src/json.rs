//! A model of JSON values, a lookup function for objects, and a verified
//! serializer whose output is pinned, character for character, by the spec
//! function [`jtext`].

use vstd::prelude::*;

verus! {

use vstd::std_specs::iter::IteratorSpec;

/// A JSON value. Numbers are held as signed 64-bit integers; the protocol
/// handled here never computes with them, it only echoes them.
pub enum Json {
    Null,
    Bool(bool),
    Int(i64),
    Str(String),
    Arr(Vec<Json>),
    Obj(Vec<(String, Json)>),
}

// ── Characters of the rendered form ──────────────────────────────

/// The decimal digit character for `d` (0 to 9).
pub open spec fn digit_char(d: int) -> char {
    if d == 0 {
        '0'
    } else if d == 1 {
        '1'
    } else if d == 2 {
        '2'
    } else if d == 3 {
        '3'
    } else if d == 4 {
        '4'
    } else if d == 5 {
        '5'
    } else if d == 6 {
        '6'
    } else if d == 7 {
        '7'
    } else if d == 8 {
        '8'
    } else {
        '9'
    }
}

/// The lower-case hexadecimal digit character for `d` (0 to 15).
pub open spec fn hex_char(d: int) -> char {
    if d == 10 {
        'a'
    } else if d == 11 {
        'b'
    } else if d == 12 {
        'c'
    } else if d == 13 {
        'd'
    } else if d == 14 {
        'e'
    } else if d == 15 {
        'f'
    } else {
        digit_char(d)
    }
}

/// How one character appears inside a JSON string literal: quote, backslash
/// and control characters are escaped, all others stand as they are.
pub open spec fn esc_char(c: char) -> Seq<char> {
    if c == '"' {
        seq!['\\', '"']
    } else if c == '\\' {
        seq!['\\', '\\']
    } else if c == '\u{8}' {
        seq!['\\', 'b']
    } else if c == '\u{c}' {
        seq!['\\', 'f']
    } else if c == '\n' {
        seq!['\\', 'n']
    } else if c == '\r' {
        seq!['\\', 'r']
    } else if c == '\t' {
        seq!['\\', 't']
    } else if (c as u32) < 0x20 {
        seq!['\\', 'u', '0', '0', hex_char((c as u32) as int / 16), hex_char((c as u32) as int % 16)]
    } else {
        seq![c]
    }
}

/// The body of a JSON string literal for the characters `s`.
pub open spec fn escape_text(s: Seq<char>) -> Seq<char>
    decreases s.len(),
{
    if s.len() == 0 {
        Seq::empty()
    } else {
        escape_text(s.drop_last()) + esc_char(s.last())
    }
}

/// The decimal digits of a non-negative integer.
pub open spec fn nat_text(n: int) -> Seq<char>
    decreases n,
{
    if n < 10 {
        seq![digit_char(n)]
    } else {
        nat_text(n / 10).push(digit_char(n % 10))
    }
}

/// The decimal form of an integer, with a leading minus sign if negative.
pub open spec fn int_text(n: int) -> Seq<char> {
    if n < 0 {
        seq!['-'] + nat_text(-n)
    } else {
        nat_text(n)
    }
}

// ── The rendered text of a JSON value ────────────────────────────

/// The serialized text of a JSON value, in compact form: no spaces, object
/// entries and array elements separated by single commas.
pub open spec fn jtext(j: Json) -> Seq<char>
    decreases j,
{
    match j {
        Json::Null => "null"@,
        Json::Bool(b) => if b {
            "true"@
        } else {
            "false"@
        },
        Json::Int(n) => int_text(n as int),
        Json::Str(s) => seq!['"'] + escape_text(s@) + seq!['"'],
        Json::Arr(v) => seq!['['] + arr_text(v@) + seq![']'],
        Json::Obj(es) => seq!['{'] + obj_text(es@) + seq!['}'],
    }
}

/// The comma-separated texts of the elements of an array.
pub open spec fn arr_text(s: Seq<Json>) -> Seq<char>
    decreases s,
{
    if s.len() == 0 {
        Seq::empty()
    } else if s.len() == 1 {
        jtext(s.last())
    } else {
        arr_text(s.drop_last()) + seq![','] + jtext(s.last())
    }
}

/// The text of one object entry: quoted escaped key, a colon, the value.
pub open spec fn entry_text(e: (String, Json)) -> Seq<char>
    decreases e,
{
    seq!['"'] + escape_text(e.0@) + seq!['"', ':'] + jtext(e.1)
}

/// The comma-separated texts of the entries of an object.
pub open spec fn obj_text(s: Seq<(String, Json)>) -> Seq<char>
    decreases s,
{
    if s.len() == 0 {
        Seq::empty()
    } else if s.len() == 1 {
        entry_text(s.last())
    } else {
        obj_text(s.drop_last()) + seq![','] + entry_text(s.last())
    }
}

// ── Object lookup ────────────────────────────────────────────────

/// The value under `key` in an object's entry list: the first entry whose
/// key matches, or `None` if no entry does.
pub open spec fn obj_lookup(es: Seq<(String, Json)>, key: Seq<char>) -> Option<Json>
    decreases es.len(),
{
    if es.len() == 0 {
        None
    } else if es[0].0@ == key {
        Some(es[0].1)
    } else {
        obj_lookup(es.drop_first(), key)
    }
}

/// If `i` is the first index whose key matches, the lookup yields that entry.
pub proof fn lemma_obj_lookup_at_first_index(es: Seq<(String, Json)>, key: Seq<char>, i: int)
    requires
        0 <= i < es.len(),
        es[i].0@ == key,
        forall|j: int| 0 <= j < i ==> es[j].0@ != key,
    ensures
        obj_lookup(es, key) == Some(es[i].1),
    decreases es.len(),
{
    if i > 0 {
        lemma_obj_lookup_at_first_index(es.drop_first(), key, i - 1);
    }
}

/// If no entry's key matches, the lookup yields nothing.
pub proof fn lemma_obj_lookup_absent(es: Seq<(String, Json)>, key: Seq<char>)
    requires
        forall|j: int| 0 <= j < es.len() ==> es[j].0@ != key,
    ensures
        obj_lookup(es, key) is None,
    decreases es.len(),
{
    if es.len() > 0 {
        lemma_obj_lookup_absent(es.drop_first(), key);
    }
}

// ── String helpers ───────────────────────────────────────────────

/// Whether two string slices hold the same characters.
pub fn str_eq(a: &str, b: &str) -> (r: bool)
    ensures
        r == (a@ == b@),
{
    let sa: String = a.to_owned();
    let sb: String = b.to_owned();
    sa == sb
}

/// The characters of a string slice, as a vector.
pub fn chars_vec(s: &str) -> (r: Vec<char>)
    ensures
        r@ == s@,
{
    let mut it = s.chars();
    let mut r: Vec<char> = Vec::new();
    loop
        invariant
            r@ + it.remaining() == s@,
        ensures
            r@ == s@,
        decreases s@.len() - r@.len(),
    {
        match it.next() {
            Some(c) => {
                r.push(c);
            },
            None => {
                assert(r@ =~= s@);
                break ;
            },
        }
    }
    r
}

/// Turns a vector of characters back into a string.
/// Relies on `String: FromIterator<char>`: collecting characters yields the
/// string holding exactly those characters in order.
#[verifier::external_body]
fn chars_to_string(v: &Vec<char>) -> (r: String)
    ensures
        r@ == v@,
{
    v.iter().collect()
}

// ── The serializer ───────────────────────────────────────────────

/// Appends to `out` the decimal digit character for `d`.
fn push_digit(d: u64, out: &mut Vec<char>)
    requires
        d < 10,
    ensures
        final(out)@ == old(out)@.push(digit_char(d as int)),
{
    let c: char = if d == 0 {
        '0'
    } else if d == 1 {
        '1'
    } else if d == 2 {
        '2'
    } else if d == 3 {
        '3'
    } else if d == 4 {
        '4'
    } else if d == 5 {
        '5'
    } else if d == 6 {
        '6'
    } else if d == 7 {
        '7'
    } else if d == 8 {
        '8'
    } else {
        '9'
    };
    out.push(c);
}

/// Appends to `out` the lower-case hexadecimal digit character for `d`.
fn push_hex_digit(d: u32, out: &mut Vec<char>)
    requires
        d < 16,
    ensures
        final(out)@ == old(out)@.push(hex_char(d as int)),
{
    let c: char = if d == 10 {
        'a'
    } else if d == 11 {
        'b'
    } else if d == 12 {
        'c'
    } else if d == 13 {
        'd'
    } else if d == 14 {
        'e'
    } else if d == 15 {
        'f'
    } else if d == 0 {
        '0'
    } else if d == 1 {
        '1'
    } else if d == 2 {
        '2'
    } else if d == 3 {
        '3'
    } else if d == 4 {
        '4'
    } else if d == 5 {
        '5'
    } else if d == 6 {
        '6'
    } else if d == 7 {
        '7'
    } else if d == 8 {
        '8'
    } else {
        '9'
    };
    out.push(c);
}

/// Appends the decimal digits of `n` to `out`.
fn push_nat_text(n: u64, out: &mut Vec<char>)
    ensures
        final(out)@ == old(out)@ + nat_text(n as int),
    decreases n,
{
    if n < 10 {
        push_digit(n, out);
        assert(old(out)@.push(digit_char(n as int)) =~= old(out)@ + nat_text(n as int));
    } else {
        push_nat_text(n / 10, out);
        push_digit(n % 10, out);
        assert((old(out)@ + nat_text(n as int / 10)).push(digit_char(n as int % 10)) =~= old(
            out,
        )@ + nat_text(n as int));
    }
}

/// Appends the decimal form of `n` to `out`, minus sign included.
fn push_int_text(n: i64, out: &mut Vec<char>)
    ensures
        final(out)@ == old(out)@ + int_text(n as int),
{
    if n < 0 {
        out.push('-');
        let m: u64 = if n == i64::MIN {
            9223372036854775808u64
        } else {
            (-n) as u64
        };
        assert(m as int == -(n as int));
        push_nat_text(m, out);
        assert(old(out)@.push('-') + nat_text(m as int) =~= old(out)@ + int_text(n as int));
    } else {
        push_nat_text(n as u64, out);
    }
}

/// Appends the escaped form of one character to `out`.
fn push_esc_char(c: char, out: &mut Vec<char>)
    ensures
        final(out)@ == old(out)@ + esc_char(c),
{
    if c == '"' {
        out.push('\\');
        out.push('"');
        assert(old(out)@.push('\\').push('"') =~= old(out)@ + esc_char(c));
    } else if c == '\\' {
        out.push('\\');
        out.push('\\');
        assert(old(out)@.push('\\').push('\\') =~= old(out)@ + esc_char(c));
    } else if c == '\u{8}' {
        out.push('\\');
        out.push('b');
        assert(old(out)@.push('\\').push('b') =~= old(out)@ + esc_char(c));
    } else if c == '\u{c}' {
        out.push('\\');
        out.push('f');
        assert(old(out)@.push('\\').push('f') =~= old(out)@ + esc_char(c));
    } else if c == '\n' {
        out.push('\\');
        out.push('n');
        assert(old(out)@.push('\\').push('n') =~= old(out)@ + esc_char(c));
    } else if c == '\r' {
        out.push('\\');
        out.push('r');
        assert(old(out)@.push('\\').push('r') =~= old(out)@ + esc_char(c));
    } else if c == '\t' {
        out.push('\\');
        out.push('t');
        assert(old(out)@.push('\\').push('t') =~= old(out)@ + esc_char(c));
    } else if (c as u32) < 0x20 {
        let u: u32 = c as u32;
        out.push('\\');
        out.push('u');
        out.push('0');
        out.push('0');
        push_hex_digit(u / 16, out);
        push_hex_digit(u % 16, out);
        assert(old(out)@.push('\\').push('u').push('0').push('0').push(
            hex_char(u as int / 16),
        ).push(hex_char(u as int % 16)) =~= old(out)@ + esc_char(c));
    } else {
        out.push(c);
        assert(old(out)@.push(c) =~= old(out)@ + esc_char(c));
    }
}

/// Appends the body of the JSON string literal for `s` to `out`.
fn push_escaped(s: &str, out: &mut Vec<char>)
    ensures
        final(out)@ == old(out)@ + escape_text(s@),
{
    let cs = chars_vec(s);
    let mut i: usize = 0;
    assert(out@ =~= old(out)@ + escape_text(s@.take(0)));
    while i < cs.len()
        invariant
            cs@ == s@,
            i <= cs.len(),
            out@ == old(out)@ + escape_text(s@.take(i as int)),
        decreases cs.len() - i,
    {
        push_esc_char(cs[i], out);
        proof {
            let t = s@.take(i as int + 1);
            assert(t.drop_last() =~= s@.take(i as int));
            assert(t.last() == s@[i as int]);
            assert(out@ =~= old(out)@ + escape_text(t));
        }
        i = i + 1;
    }
    assert(s@.take(cs.len() as int) =~= s@);
}

/// Appends a quoted, escaped JSON string literal for `s` to `out`.
fn push_string_literal(s: &str, out: &mut Vec<char>)
    ensures
        final(out)@ == old(out)@ + seq!['"'] + escape_text(s@) + seq!['"'],
{
    out.push('"');
    push_escaped(s, out);
    out.push('"');
    assert((old(out)@.push('"') + escape_text(s@)).push('"') =~= old(out)@ + seq!['"']
        + escape_text(s@) + seq!['"']);
}

/// Appends the serialized text of `j` to `out`.
pub fn render_into(j: &Json, out: &mut Vec<char>)
    ensures
        final(out)@ == old(out)@ + jtext(*j),
    decreases *j,
{
    match j {
        Json::Null => {
            let mut piece = chars_vec("null");
            out.append(&mut piece);
        },
        Json::Bool(b) => {
            let mut piece = if *b {
                chars_vec("true")
            } else {
                chars_vec("false")
            };
            out.append(&mut piece);
        },
        Json::Int(n) => {
            push_int_text(*n, out);
        },
        Json::Str(s) => {
            push_string_literal(s.as_str(), out);
            assert(old(out)@ + seq!['"'] + escape_text(s@) + seq!['"'] =~= old(out)@ + jtext(*j));
        },
        Json::Arr(v) => {
            out.push('[');
            let mut i: usize = 0;
            assert(out@ =~= old(out)@.push('[') + arr_text(v@.take(0)));
            while i < v.len()
                invariant
                    *j == Json::Arr(*v),
                    i <= v.len(),
                    out@ == old(out)@.push('[') + arr_text(v@.take(i as int)),
                decreases v.len() - i,
            {
                if i > 0 {
                    out.push(',');
                }
                proof {
                    assert(*v == j->Arr_0);
                    assert(decreases_to!(*j => j->Arr_0));
                    assert(decreases_to!(*v => v@));
                    assert(decreases_to!(v@ => v@[i as int]));
                }
                render_into(&v[i], out);
                proof {
                    let t = v@.take(i as int + 1);
                    assert(t.drop_last() =~= v@.take(i as int));
                    assert(t.last() == v@[i as int]);
                    if i == 0 {
                        assert(arr_text(t) =~= jtext(v@[0]));
                        assert(out@ =~= old(out)@.push('[') + arr_text(t));
                    } else {
                        assert(out@ =~= old(out)@.push('[') + arr_text(t));
                    }
                }
                i = i + 1;
            }
            out.push(']');
            proof {
                assert(v@.take(v@.len() as int) =~= v@);
                assert((old(out)@.push('[') + arr_text(v@)).push(']') =~= old(out)@ + jtext(*j));
            }
        },
        Json::Obj(es) => {
            out.push('{');
            let mut i: usize = 0;
            assert(out@ =~= old(out)@.push('{') + obj_text(es@.take(0)));
            while i < es.len()
                invariant
                    *j == Json::Obj(*es),
                    i <= es.len(),
                    out@ == old(out)@.push('{') + obj_text(es@.take(i as int)),
                decreases es.len() - i,
            {
                if i > 0 {
                    out.push(',');
                }
                let entry = &es[i];
                push_string_literal(entry.0.as_str(), out);
                out.push(':');
                proof {
                    assert(*es == j->Obj_0);
                    assert(decreases_to!(*j => j->Obj_0));
                    assert(decreases_to!(*es => es@));
                    assert(decreases_to!(es@ => es@[i as int]));
                    assert(decreases_to!(es@[i as int] => es@[i as int].1));
                }
                render_into(&entry.1, out);
                proof {
                    let t = es@.take(i as int + 1);
                    assert(t.drop_last() =~= es@.take(i as int));
                    assert(t.last() == es@[i as int]);
                    assert(entry_text(es@[i as int]) =~= seq!['"'] + escape_text(es@[i as int].0@)
                        + seq!['"', ':'] + jtext(es@[i as int].1));
                    if i == 0 {
                        assert(obj_text(t) =~= entry_text(es@[0]));
                        assert(out@ =~= old(out)@.push('{') + obj_text(t));
                    } else {
                        assert(out@ =~= old(out)@.push('{') + obj_text(t));
                    }
                }
                i = i + 1;
            }
            out.push('}');
            proof {
                assert(es@.take(es@.len() as int) =~= es@);
                assert((old(out)@.push('{') + obj_text(es@)).push('}') =~= old(out)@ + jtext(*j));
            }
        },
    }
}

/// The serialized text of `j`, as a string.
pub fn render(j: &Json) -> (r: String)
    ensures
        r@ == jtext(*j),
{
    let mut out: Vec<char> = Vec::new();
    render_into(j, &mut out);
    assert(out@ =~= jtext(*j));
    chars_to_string(&out)
}

} // verus!

verus! {

// ── Rendering is determined by shape and characters ──────────────

/// Two JSON values of the same shape whose strings hold the same characters.
pub open spec fn jsim(a: Json, b: Json) -> bool
    decreases a,
{
    match (a, b) {
        (Json::Null, Json::Null) => true,
        (Json::Bool(x), Json::Bool(y)) => x == y,
        (Json::Int(x), Json::Int(y)) => x == y,
        (Json::Str(x), Json::Str(y)) => x@ == y@,
        (Json::Arr(u), Json::Arr(v)) => u@.len() == v@.len() && (forall|i: int|
            0 <= i < u@.len() ==> jsim(#[trigger] u@[i], v@[i])),
        (Json::Obj(u), Json::Obj(v)) => u@.len() == v@.len() && (forall|i: int|
            0 <= i < u@.len() ==> (#[trigger] u@[i]).0@ == v@[i].0@ && jsim(u@[i].1, v@[i].1)),
        _ => false,
    }
}

/// Every value is similar to itself.
pub proof fn lemma_jsim_refl(a: Json)
    ensures
        jsim(a, a),
    decreases a,
{
    match a {
        Json::Arr(u) => {
            assert forall|i: int| 0 <= i < u@.len() implies jsim(#[trigger] u@[i], u@[i]) by {
                lemma_jsim_refl(u@[i]);
            }
        },
        Json::Obj(u) => {
            assert forall|i: int| 0 <= i < u@.len() implies (#[trigger] u@[i]).0@ == u@[i].0@
                && jsim(u@[i].1, u@[i].1) by {
                lemma_jsim_refl(u@[i].1);
            }
        },
        _ => {},
    }
}

/// Similar values serialize identically: [`jtext`] depends on nothing but
/// the shape of a value and the characters of its strings.
pub proof fn lemma_jsim_jtext(a: Json, b: Json)
    requires
        jsim(a, b),
    ensures
        jtext(a) == jtext(b),
    decreases a,
{
    match (a, b) {
        (Json::Arr(u), Json::Arr(v)) => {
            lemma_jsim_arr_text(u@, v@);
        },
        (Json::Obj(u), Json::Obj(v)) => {
            lemma_jsim_obj_text(u@, v@);
        },
        _ => {},
    }
}

proof fn lemma_jsim_arr_text(u: Seq<Json>, v: Seq<Json>)
    requires
        u.len() == v.len(),
        forall|i: int| 0 <= i < u.len() ==> jsim(#[trigger] u[i], v[i]),
    ensures
        arr_text(u) == arr_text(v),
    decreases u,
{
    if u.len() > 0 {
        lemma_jsim_jtext(u.last(), v.last());
        lemma_jsim_arr_text(u.drop_last(), v.drop_last());
    }
}

proof fn lemma_jsim_obj_text(u: Seq<(String, Json)>, v: Seq<(String, Json)>)
    requires
        u.len() == v.len(),
        forall|i: int| 0 <= i < u.len() ==> (#[trigger] u[i]).0@ == v[i].0@ && jsim(u[i].1, v[i].1),
    ensures
        obj_text(u) == obj_text(v),
    decreases u,
{
    if u.len() > 0 {
        lemma_jsim_jtext(u.last().1, v.last().1);
        assert(entry_text(u.last()) == entry_text(v.last()));
        lemma_jsim_obj_text(u.drop_last(), v.drop_last());
    }
}

} // verus!
