//! Rendering dictionary values as JSON text.
//!
//! The library frames its own wire bodies: capability objects and message
//! parameters are rendered by the functions here, and every contract is
//! stated against [`json_of`], the mathematical text of a value.  Strings
//! are escaped for the characters the library's values can contain: the
//! quote, the backslash, and the newline, carriage-return and tab controls.
use vstd::prelude::*;

use crate::types::Dict;
use crate::types::DictType;
use crate::types::DictVal;
use crate::types::dict_view;

verus! {

/// The decimal digit character for `n`, when `0 <= n <= 9`.
pub open spec fn digit_char(n: int) -> char {
    if n == 0 {
        '0'
    } else if n == 1 {
        '1'
    } else if n == 2 {
        '2'
    } else if n == 3 {
        '3'
    } else if n == 4 {
        '4'
    } else if n == 5 {
        '5'
    } else if n == 6 {
        '6'
    } else if n == 7 {
        '7'
    } else if n == 8 {
        '8'
    } else {
        '9'
    }
}

/// The decimal digits of a nonnegative integer, most significant first.
pub open spec fn dec_digits(n: nat) -> Seq<char>
    decreases n,
{
    if n < 10 {
        seq![digit_char(n as int)]
    } else {
        dec_digits(n / 10) + seq![digit_char((n % 10) as int)]
    }
}

/// The decimal rendering of an integer, with a leading minus sign when it
/// is negative.
pub open spec fn int_text(n: int) -> Seq<char> {
    if n < 0 {
        seq!['-'] + dec_digits((-n) as nat)
    } else {
        dec_digits(n as nat)
    }
}

/// How one character is rendered inside a JSON string literal.
pub open spec fn esc_char(c: char) -> Seq<char> {
    if c == '"' {
        seq!['\\', '"']
    } else if c == '\\' {
        seq!['\\', '\\']
    } else if c == '\n' {
        seq!['\\', 'n']
    } else if c == '\r' {
        seq!['\\', 'r']
    } else if c == '\t' {
        seq!['\\', 't']
    } else {
        seq![c]
    }
}

/// How a whole string is rendered inside a JSON string literal.
pub open spec fn esc_seq(s: Seq<char>) -> Seq<char>
    decreases s.len(),
{
    if s.len() == 0 {
        Seq::empty()
    } else {
        esc_char(s[0]) + esc_seq(s.drop_first())
    }
}

/// A quoted, escaped JSON string literal.
pub open spec fn quoted(s: Seq<char>) -> Seq<char> {
    seq!['"'] + esc_seq(s) + seq!['"']
}

/// The JSON text of a value.
pub open spec fn json_of(v: DictVal) -> Seq<char>
    decreases v, 0int,
{
    match v {
        DictVal::Int(n) => int_text(n),
        DictVal::Str(s) => quoted(s),
        DictVal::Flag(b) => bool_text(b),
        DictVal::Arr(items) => seq!['['] + json_list(items) + seq![']'],
        DictVal::Obj(m) => seq!['{'] + json_entries(m) + seq!['}'],
    }
}

/// The comma-separated JSON texts of array elements.
pub open spec fn json_list(items: Seq<DictVal>) -> Seq<char>
    decreases items, 1int,
{
    if items.len() == 0 {
        Seq::empty()
    } else if items.len() == 1 {
        json_of(items[0])
    } else {
        json_of(items[0]) + seq![','] + json_list(items.drop_first())
    }
}

/// The JSON text of one object entry.
pub open spec fn json_entry(e: (Seq<char>, DictVal)) -> Seq<char>
    decreases e,
{
    quoted(e.0) + seq![':'] + json_of(e.1)
}

/// The comma-separated JSON texts of object entries.
pub open spec fn json_entries(m: Seq<(Seq<char>, DictVal)>) -> Seq<char>
    decreases m, 1int,
{
    if m.len() == 0 {
        Seq::empty()
    } else if m.len() == 1 {
        json_entry(m[0])
    } else {
        json_entry(m[0]) + seq![','] + json_entries(m.drop_first())
    }
}

/// Splitting a nonempty element list splits its rendering at a comma.
pub proof fn lemma_json_list_concat(a: Seq<DictVal>, b: Seq<DictVal>)
    requires
        a.len() > 0,
        b.len() > 0,
    ensures
        json_list(a + b) == json_list(a) + seq![','] + json_list(b),
    decreases a.len(),
{
    if a.len() == 1 {
        assert((a + b)[0] == a[0]);
        assert((a + b).drop_first() =~= b);
        assert(json_list(a + b) == json_of(a[0]) + seq![','] + json_list(b));
    } else {
        assert((a + b)[0] == a[0]);
        assert((a + b).drop_first() =~= a.drop_first() + b);
        lemma_json_list_concat(a.drop_first(), b);
        assert(json_list(a + b) == json_of(a[0]) + seq![','] + json_list(a.drop_first() + b));
        assert(json_list(a) + seq![','] + json_list(b) == json_of(a[0]) + seq![','] + (json_list(
            a.drop_first(),
        ) + seq![','] + json_list(b))) by {
            assert((json_of(a[0]) + seq![','] + json_list(a.drop_first())) + seq![','] + json_list(
                b,
            ) =~= json_of(a[0]) + seq![','] + (json_list(a.drop_first()) + seq![','] + json_list(
                b,
            )));
        }
        assert(json_of(a[0]) + seq![','] + json_list(a.drop_first() + b) =~= json_of(a[0]) + seq![
            ',',
        ] + (json_list(a.drop_first()) + seq![','] + json_list(b)));
    }
}

/// Splitting a nonempty entry list splits its rendering at a comma.
pub proof fn lemma_json_entries_concat(a: Seq<(Seq<char>, DictVal)>, b: Seq<(Seq<char>, DictVal)>)
    requires
        a.len() > 0,
        b.len() > 0,
    ensures
        json_entries(a + b) == json_entries(a) + seq![','] + json_entries(b),
    decreases a.len(),
{
    if a.len() == 1 {
        assert((a + b)[0] == a[0]);
        assert((a + b).drop_first() =~= b);
        assert(json_entries(a + b) == json_entry(a[0]) + seq![','] + json_entries(b));
    } else {
        assert((a + b)[0] == a[0]);
        assert((a + b).drop_first() =~= a.drop_first() + b);
        lemma_json_entries_concat(a.drop_first(), b);
        assert(json_entry(a[0]) + seq![','] + json_entries(a.drop_first() + b) =~= (json_entry(
            a[0],
        ) + seq![','] + json_entries(a.drop_first())) + seq![','] + json_entries(b));
    }
}

/// The text of a boolean.
pub open spec fn bool_text(b: bool) -> Seq<char> {
    if b {
        seq!['t', 'r', 'u', 'e']
    } else {
        seq!['f', 'a', 'l', 's', 'e']
    }
}

/// Relies on `String::push`: appends exactly the given character.
#[verifier::external_body]
pub(crate) fn push_char(out: &mut String, c: char)
    ensures
        final(out)@ == old(out)@ + seq![c],
{
    out.push(c);
}

/// Appends the text of a boolean.
pub(crate) fn write_bool(b: bool, out: &mut String)
    ensures
        final(out)@ == old(out)@ + bool_text(b),
{
    if b {
        push_char(out, 't');
        push_char(out, 'r');
        push_char(out, 'u');
        push_char(out, 'e');
        proof {
            assert(out@ =~= old(out)@ + seq!['t', 'r', 'u', 'e']);
        }
    } else {
        push_char(out, 'f');
        push_char(out, 'a');
        push_char(out, 'l');
        push_char(out, 's');
        push_char(out, 'e');
        proof {
            assert(out@ =~= old(out)@ + seq!['f', 'a', 'l', 's', 'e']);
        }
    }
}

/// Appends the decimal digits of `m`.
fn write_digits(m: u64, out: &mut String)
    ensures
        final(out)@ == old(out)@ + dec_digits(m as nat),
    decreases m,
{
    if m >= 10 {
        write_digits(m / 10, out);
    }
    let d = (m % 10) as u8;
    let c: char = if d == 0 {
        '0'
    } else if d == 1 {
        '1'
    } else if d == 2 {
        '2'
    } else if d == 3 {
        '3'
    } else if d == 4 {
        '4'
    } else if d == 5 {
        '5'
    } else if d == 6 {
        '6'
    } else if d == 7 {
        '7'
    } else if d == 8 {
        '8'
    } else {
        '9'
    };
    proof {
        assert(c == digit_char((m % 10) as int));
    }
    push_char(out, c);
}

/// Appends the decimal rendering of `n`, sign included.
pub fn write_int(n: i32, out: &mut String)
    ensures
        final(out)@ == old(out)@ + int_text(n as int),
{
    let m: u64 = if n < 0 {
        proof {
            assert(-(n as i64) == -(n as int));
        }
        (-(n as i64)) as u64
    } else {
        n as u64
    };
    if n < 0 {
        push_char(out, '-');
    }
    write_digits(m, out);
}

/// Appends `s` escaped as the body of a JSON string literal.
fn write_escaped(s: &str, out: &mut String)
    ensures
        final(out)@ == old(out)@ + esc_seq(s@),
{
    let n = s.unicode_len();
    let mut i: usize = 0;
    while i < n
        invariant
            n == s@.len(),
            i <= n,
            out@ == old(out)@ + esc_seq(s@.take(i as int)),
        decreases n - i,
    {
        let c = s.get_char(i);
        if c == '"' {
            push_char(out, '\\');
            push_char(out, '"');
        } else if c == '\\' {
            push_char(out, '\\');
            push_char(out, '\\');
        } else if c == '\n' {
            push_char(out, '\\');
            push_char(out, 'n');
        } else if c == '\r' {
            push_char(out, '\\');
            push_char(out, 'r');
        } else if c == '\t' {
            push_char(out, '\\');
            push_char(out, 't');
        } else {
            push_char(out, c);
        }
        proof {
            lemma_esc_seq_take_step(s@, i as int);
            assert(out@ =~= old(out)@ + esc_seq(s@.take(i as int + 1)));
        }
        i = i + 1;
    }
    proof {
        assert(s@.take(n as int) =~= s@);
    }
}

/// Escaping one more character appends that character's rendering.
proof fn lemma_esc_seq_take_step(s: Seq<char>, i: int)
    requires
        0 <= i < s.len(),
    ensures
        esc_seq(s.take(i + 1)) == esc_seq(s.take(i)) + esc_char(s[i]),
    decreases i,
{
    if i == 0 {
        assert(s.take(1)[0] == s[0]);
        assert(s.take(1).drop_first() =~= Seq::<char>::empty());
        assert(esc_seq(Seq::<char>::empty()) == Seq::<char>::empty());
        assert(esc_seq(s.take(1)) == esc_char(s.take(1)[0]) + esc_seq(s.take(1).drop_first()));
        assert(esc_seq(s.take(1)) == esc_char(s[0]) + Seq::<char>::empty());
        assert(esc_char(s[0]) + Seq::<char>::empty() =~= esc_char(s[0]));
        assert(s.take(0) =~= Seq::<char>::empty());
        assert(esc_seq(s.take(0)) + esc_char(s[0]) =~= esc_char(s[0]));
    } else {
        lemma_esc_seq_take_step(s.drop_first(), i - 1);
        assert(s.take(i + 1)[0] == s[0]);
        assert(s.take(i + 1).drop_first() =~= s.drop_first().take(i));
        assert(s.take(i).drop_first() =~= s.drop_first().take(i - 1));
        assert(s.drop_first()[i - 1] == s[i]);
        assert(esc_seq(s.take(i + 1)) == esc_char(s[0]) + esc_seq(s.drop_first().take(i)));
        assert(esc_seq(s.take(i)) == esc_char(s[0]) + esc_seq(s.drop_first().take(i - 1)));
        assert(esc_char(s[0]) + (esc_seq(s.drop_first().take(i - 1)) + esc_char(s[i])) =~= (esc_char(
            s[0],
        ) + esc_seq(s.drop_first().take(i - 1))) + esc_char(s[i]));
    }
}

/// Appends a quoted, escaped JSON string literal holding `s`.
fn write_quoted(s: &str, out: &mut String)
    ensures
        final(out)@ == old(out)@ + quoted(s@),
{
    push_char(out, '"');
    write_escaped(s, out);
    push_char(out, '"');
    proof {
        assert(old(out)@ + seq!['"'] + esc_seq(s@) + seq!['"'] =~= old(out)@ + (seq!['"'] + esc_seq(
            s@,
        ) + seq!['"']));
    }
}

/// Appends the JSON text of `v`.
pub fn write_json(v: &DictType, out: &mut String)
    ensures
        final(out)@ == old(out)@ + json_of(dict_view(*v)),
    decreases *v, 0int,
{
    match v {
        DictType::Number(n) => {
            write_int(*n, out);
        }
        DictType::Str(s) => {
            write_quoted(s.as_str(), out);
        }
        DictType::Bool(b) => {
            write_bool(*b, out);
        }
        DictType::Arr(items) => {
            proof {
                crate::types::lemma_arr_view(items@);
            }
            push_char(out, '[');
            write_json_list(items, out);
            push_char(out, ']');
            proof {
                assert(out@ =~= old(out)@ + json_of(dict_view(*v)));
            }
        }
        DictType::Obj(entries) => {
            proof {
                crate::types::lemma_entries_view(entries@);
            }
            push_char(out, '{');
            write_json_entries(entries, out);
            push_char(out, '}');
            proof {
                assert(out@ =~= old(out)@ + json_of(dict_view(*v)));
            }
        }
    }
}

/// Appends the comma-separated JSON texts of `items`.
fn write_json_list(items: &Vec<DictType>, out: &mut String)
    ensures
        final(out)@ == old(out)@ + json_list(crate::types::arr_view(items@)),
    decreases *items, 1int,
{
    let ghost g_view = crate::types::arr_view(items@);
    proof {
        crate::types::lemma_arr_view(items@);
    }
    let n = items.len();
    let mut i: usize = 0;
    while i < n
        invariant
            n == items@.len(),
            g_view == crate::types::arr_view(items@),
            g_view.len() == n,
            forall|j: int| 0 <= j < n ==> g_view[j] == dict_view(#[trigger] items@[j]),
            i <= n,
            out@ == old(out)@ + json_list(g_view.take(i as int)),
        decreases n - i,
    {
        if i > 0 {
            push_char(out, ',');
        }
        proof {
            assert(decreases_to!(*items => items@));
            assert(decreases_to!(items@ => items@[i as int]));
        }
        write_json(&items[i], out);
        proof {
            lemma_json_list_take_step(g_view, i as int);
            assert(out@ =~= old(out)@ + json_list(g_view.take(i as int + 1)));
        }
        i = i + 1;
    }
    proof {
        assert(g_view.take(n as int) =~= g_view);
    }
}

/// Rendering one more element appends a comma (after the first) and that
/// element's text.
proof fn lemma_json_list_take_step(s: Seq<DictVal>, i: int)
    requires
        0 <= i < s.len(),
    ensures
        json_list(s.take(i + 1)) == if i == 0 {
            json_list(s.take(0)) + json_of(s[0])
        } else {
            json_list(s.take(i)) + seq![','] + json_of(s[i])
        },
{
    if i == 0 {
        assert(s.take(1)[0] == s[0]);
        assert(s.take(1).len() == 1);
        assert(json_list(s.take(1)) == json_of(s[0]));
        assert(json_list(s.take(0)) + json_of(s[0]) =~= json_of(s[0]));
    } else {
        assert(s.take(i + 1) =~= s.take(i) + seq![s[i]]);
        lemma_json_list_concat(s.take(i), seq![s[i]]);
        assert(json_list(seq![s[i]]) == json_of(s[i]));
    }
}

/// Appends the comma-separated JSON texts of `entries`.
fn write_json_entries(entries: &Vec<(String, DictType)>, out: &mut String)
    ensures
        final(out)@ == old(out)@ + json_entries(crate::types::entries_view(entries@)),
    decreases *entries, 1int,
{
    let ghost g_view = crate::types::entries_view(entries@);
    proof {
        crate::types::lemma_entries_view(entries@);
    }
    let n = entries.len();
    let mut i: usize = 0;
    while i < n
        invariant
            n == entries@.len(),
            g_view == crate::types::entries_view(entries@),
            g_view.len() == n,
            forall|j: int|
                0 <= j < n ==> g_view[j] == ((#[trigger] entries@[j]).0@, dict_view(entries@[j].1)),
            i <= n,
            out@ == old(out)@ + json_entries(g_view.take(i as int)),
        decreases n - i,
    {
        if i > 0 {
            push_char(out, ',');
        }
        write_quoted(entries[i].0.as_str(), out);
        push_char(out, ':');
        proof {
            assert(decreases_to!(*entries => entries@));
            assert(decreases_to!(entries@ => entries@[i as int]));
            assert(decreases_to!(entries@[i as int] => entries@[i as int].1));
        }
        write_json(&entries[i].1, out);
        proof {
            lemma_json_entries_take_step(g_view, i as int);
            assert(out@ =~= old(out)@ + json_entries(g_view.take(i as int + 1)));
        }
        i = i + 1;
    }
    proof {
        assert(g_view.take(n as int) =~= g_view);
    }
}

/// Rendering one more entry appends a comma (after the first) and that
/// entry's text.
proof fn lemma_json_entries_take_step(s: Seq<(Seq<char>, DictVal)>, i: int)
    requires
        0 <= i < s.len(),
    ensures
        json_entries(s.take(i + 1)) == if i == 0 {
            json_entries(s.take(0)) + json_entry(s[0])
        } else {
            json_entries(s.take(i)) + seq![','] + json_entry(s[i])
        },
{
    if i == 0 {
        assert(s.take(1)[0] == s[0]);
        assert(s.take(1).len() == 1);
        assert(json_entries(s.take(1)) == json_entry(s[0]));
        assert(json_entries(s.take(0)) + json_entry(s[0]) =~= json_entry(s[0]));
    } else {
        assert(s.take(i + 1) =~= s.take(i) + seq![s[i]]);
        lemma_json_entries_concat(s.take(i), seq![s[i]]);
        assert(json_entries(seq![s[i]]) == json_entry(s[i]));
    }
}

impl DictType {
    /// The JSON text of this value.
    pub fn to_json_string(&self) -> (r: String)
        ensures
            r@ == json_of(self@),
    {
        let mut out = String::new();
        write_json(self, &mut out);
        out
    }
}

impl Dict {
    /// The JSON text of this dictionary's object.
    pub fn to_json_string(&self) -> (r: String)
        ensures
            r@ == json_of(self@),
    {
        let mut out = String::new();
        self.write_to(&mut out);
        out
    }

    /// Appends the JSON text of this dictionary's object.
    pub fn write_to(&self, out: &mut String)
        ensures
            final(out)@ == old(out)@ + json_of(self@),
    {
        write_json(self.value_ref(), out);
    }
}

} // verus!
