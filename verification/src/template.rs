//! Expansion of URL path templates.
//!
//! A template is plain text with placeholders written `{name}`.  Expansion
//! substitutes each placeholder with the text of the parameter bound to its
//! name — rendered plainly, never re-quoted.  A placeholder that is never
//! closed, names a missing parameter, or names one bound to a container
//! value makes the whole expansion fail.
use vstd::prelude::*;

use crate::error::ErrorKind;
use crate::error::GeckError;
use crate::json::bool_text;
use crate::json::dec_digits;
use crate::json::digit_char;
use crate::json::int_text;
use crate::json::push_char;
use crate::json::write_bool;
use crate::json::write_int;
use crate::types::Dict;
use crate::types::DictType;
use crate::types::DictVal;
use crate::types::obj_has_key;
use crate::types::obj_index_of;
use crate::types::obj_val;

verus! {

/// The first index of `c` in `s`, or `-1` when `c` does not occur.
pub open spec fn find_char(s: Seq<char>, c: char) -> int
    decreases s.len(),
{
    if s.len() == 0 {
        -1
    } else if s[0] == c {
        0
    } else {
        let r = find_char(s.drop_first(), c);
        if r == -1 {
            -1
        } else {
            r + 1
        }
    }
}

/// A value a placeholder can be replaced with.
pub open spec fn is_scalar(v: DictVal) -> bool {
    v is Int || v is Str || v is Flag
}

/// The plain text a scalar value is rendered as.
pub open spec fn scalar_text(v: DictVal) -> Seq<char> {
    match v {
        DictVal::Int(n) => int_text(n),
        DictVal::Str(s) => s,
        DictVal::Flag(b) => bool_text(b),
        _ => Seq::empty(),
    }
}

/// Prefixes the payload of an optional text.
pub open spec fn prepend_opt(p: Seq<char>, o: Option<Seq<char>>) -> Option<Seq<char>> {
    match o {
        Some(s) => Some(p + s),
        None => None,
    }
}

/// The expansion of template `t` against the parameter entries `m`: `None`
/// exactly when some placeholder is unclosed, unbound, or bound to a
/// container value.
pub open spec fn spec_expand(t: Seq<char>, m: Seq<(Seq<char>, DictVal)>) -> Option<Seq<char>>
    decreases t.len(),
{
    if t.len() == 0 {
        Some(Seq::empty())
    } else if t[0] == '{' {
        let c = find_char(t, '}');
        if c < 0 || c >= t.len() {
            None
        } else {
            let name = t.subrange(1, c);
            if obj_has_key(m, name) && is_scalar(obj_val(m, name)) {
                prepend_opt(scalar_text(obj_val(m, name)), spec_expand(t.subrange(c + 1, t.len() as int), m))
            } else {
                None
            }
        }
    } else {
        prepend_opt(seq![t[0]], spec_expand(t.drop_first(), m))
    }
}

/// Every placeholder of the template is closed.
pub open spec fn wf_template(t: Seq<char>) -> bool
    decreases t.len(),
{
    if t.len() == 0 {
        true
    } else if t[0] == '{' {
        let c = find_char(t, '}');
        0 <= c < t.len() && wf_template(t.subrange(c + 1, t.len() as int))
    } else {
        wf_template(t.drop_first())
    }
}

/// The placeholder names of a template, in order of occurrence.
pub open spec fn placeholders(t: Seq<char>) -> Seq<Seq<char>>
    decreases t.len(),
{
    if t.len() == 0 {
        Seq::empty()
    } else if t[0] == '{' {
        let c = find_char(t, '}');
        if c < 0 || c >= t.len() {
            Seq::empty()
        } else {
            seq![t.subrange(1, c)] + placeholders(t.subrange(c + 1, t.len() as int))
        }
    } else {
        placeholders(t.drop_first())
    }
}

/// [`find_char`] finds exactly the first occurrence.
pub proof fn lemma_find_char_first(s: Seq<char>, c: char, idx: int)
    requires
        0 <= idx < s.len(),
        s[idx] == c,
        forall|k: int| 0 <= k < idx ==> s[k] != c,
    ensures
        find_char(s, c) == idx,
    decreases idx,
{
    if idx == 0 {
    } else {
        assert(s[0] != c);
        assert(s.drop_first()[idx - 1] == s[idx]);
        assert forall|k: int| 0 <= k < idx - 1 implies s.drop_first()[k] != c by {
            assert(s.drop_first()[k] == s[k + 1]);
        }
        lemma_find_char_first(s.drop_first(), c, idx - 1);
    }
}

/// When `c` occurs nowhere, [`find_char`] reports so.
pub proof fn lemma_find_char_none(s: Seq<char>, c: char)
    requires
        forall|k: int| 0 <= k < s.len() ==> s[k] != c,
    ensures
        find_char(s, c) == -1,
    decreases s.len(),
{
    if s.len() > 0 {
        assert forall|k: int| 0 <= k < s.drop_first().len() implies s.drop_first()[k] != c by {
            assert(s.drop_first()[k] == s[k + 1]);
        }
        lemma_find_char_none(s.drop_first(), c);
    }
}

/// Whether every placeholder of `template` is closed — the well-formedness
/// the expansion law [`lemma_expand_resolves`] assumes of a template.
pub fn template_is_wf(template: &str) -> (r: bool)
    ensures
        r == wf_template(template@),
{
    let n = template.unicode_len();
    proof {
        assert(template@.skip(0) =~= template@);
    }
    let mut i: usize = 0;
    while i < n
        invariant
            n == template@.len(),
            i <= n,
            wf_template(template@) == wf_template(template@.skip(i as int)),
        decreases n - i,
    {
        let ghost rest = template@.skip(i as int);
        let c = template.get_char(i);
        if c != '{' {
            proof {
                assert(rest[0] == c);
                assert(rest.drop_first() =~= template@.skip(i as int + 1));
            }
            i = i + 1;
        } else {
            let mut j = i + 1;
            while j < n && template.get_char(j) != '}'
                invariant
                    n == template@.len(),
                    i < j <= n,
                    template@[i as int] == '{',
                    forall|k: int| i < k < j ==> template@[k] != '}',
                decreases n - j,
            {
                j = j + 1;
            }
            if j == n {
                proof {
                    assert forall|k: int| 0 <= k < rest.len() implies rest[k] != '}' by {
                        assert(rest[k] == template@[i + k]);
                    }
                    lemma_find_char_none(rest, '}');
                }
                return false;
            }
            proof {
                assert(template@[j as int] == '}');
                assert(rest[j - i] == template@[j as int]);
                assert forall|k: int| 0 <= k < j - i implies rest[k] != '}' by {
                    assert(rest[k] == template@[i + k]);
                }
                lemma_find_char_first(rest, '}', j - i);
                assert(rest.subrange(j - i + 1, rest.len() as int) =~= template@.skip(j as int + 1));
            }
            i = j + 1;
        }
    }
    proof {
        assert(template@.skip(n as int) =~= Seq::<char>::empty());
    }
    true
}

/// An empty prefix changes nothing.
proof fn lemma_prepend_empty(o: Option<Seq<char>>)
    ensures
        prepend_opt(Seq::empty(), o) == o,
{
    match o {
        Some(s) => {
            assert(Seq::empty() + s =~= s);
        }
        None => {}
    }
}

/// Prefixing twice prefixes the concatenation.
proof fn lemma_prepend_assoc(a: Seq<char>, b: Seq<char>, o: Option<Seq<char>>)
    ensures
        prepend_opt(a, prepend_opt(b, o)) == prepend_opt(a + b, o),
{
    match o {
        Some(s) => {
            assert(a + (b + s) =~= (a + b) + s);
        }
        None => {}
    }
}

/// Expands `template` against `params`, substituting each `{name}`
/// placeholder with the plain text of the scalar parameter bound to `name`.
/// Fails, with a driver-classified error, exactly when a placeholder is
/// unclosed, names a missing parameter, or names a container-valued one —
/// as [`spec_expand`] says.
pub fn expand(template: &str, params: &Dict) -> (r: Result<String, GeckError>)
    requires
        params.wf(),
    ensures
        match r {
            Ok(s) => spec_expand(template@, params.entries()) == Some(s@),
            Err(e) => spec_expand(template@, params.entries()) is None && e.kind()
                == ErrorKind::Driver,
        },
{
    let ghost m = params.entries();
    let n = template.unicode_len();
    let mut out = String::new();
    proof {
        lemma_prepend_empty(spec_expand(template@, m));
        assert(template@.skip(0) =~= template@);
    }
    let mut i: usize = 0;
    while i < n
        invariant
            params.wf(),
            m == params.entries(),
            n == template@.len(),
            i <= n,
            spec_expand(template@, m) == prepend_opt(out@, spec_expand(template@.skip(i as int), m)),
        decreases n - i,
    {
        let ghost rest = template@.skip(i as int);
        let c = template.get_char(i);
        if c != '{' {
            let ghost out_before = out@;
            push_char(&mut out, c);
            proof {
                assert(rest[0] == c);
                assert(rest.drop_first() =~= template@.skip(i as int + 1));
                lemma_prepend_assoc(out_before, seq![c], spec_expand(rest.drop_first(), m));
            }
            i = i + 1;
        } else {
            let mut j = i + 1;
            let mut name = String::new();
            proof {
                assert(name@ =~= template@.subrange(i as int + 1, i as int + 1));
            }
            while j < n && template.get_char(j) != '}'
                invariant
                    n == template@.len(),
                    i < j <= n,
                    template@[i as int] == '{',
                    name@ == template@.subrange(i as int + 1, j as int),
                    forall|k: int| i < k < j ==> template@[k] != '}',
                decreases n - j,
            {
                push_char(&mut name, template.get_char(j));
                proof {
                    assert(name@ =~= template@.subrange(i as int + 1, j as int + 1));
                }
                j = j + 1;
            }
            if j == n {
                proof {
                    assert forall|k: int| 0 <= k < rest.len() implies rest[k] != '}' by {
                        assert(rest[k] == template@[i + k]);
                    }
                    lemma_find_char_none(rest, '}');
                    assert(spec_expand(rest, m) is None);
                }
                return Err(
                    GeckError::new(
                        ErrorKind::Driver,
                        None,
                        "path template holds an unclosed placeholder",
                    ),
                );
            }
            proof {
                assert(template@[j as int] == '}');
                assert(rest[j - i] == template@[j as int]);
                assert forall|k: int| 0 <= k < j - i implies rest[k] != '}' by {
                    assert(rest[k] == template@[i + k]);
                }
                lemma_find_char_first(rest, '}', j - i);
                assert(rest.subrange(1, j - i) =~= template@.subrange(i as int + 1, j as int));
            }
            match params.get(name.as_str()) {
                Some(v) => {
                    let ghost scalar = obj_val(m, name@);
                    let ghost out_before = out@;
                    match v {
                        DictType::Number(x) => {
                            write_int(*x, &mut out);
                        }
                        DictType::Str(s) => {
                            out.append(s.as_str());
                        }
                        DictType::Bool(b) => {
                            write_bool(*b, &mut out);
                        }
                        _ => {
                            proof {
                                assert(!is_scalar(scalar));
                                assert(spec_expand(rest, m) is None);
                            }
                            return Err(
                                GeckError::new(
                                    ErrorKind::Driver,
                                    None,
                                    "path template parameter is not a scalar",
                                ),
                            );
                        }
                    }
                    proof {
                        assert(out@ == out_before + scalar_text(scalar));
                        assert(rest.subrange(j - i + 1, rest.len() as int) =~= template@.skip(
                            j as int + 1,
                        ));
                        assert(spec_expand(rest, m) == prepend_opt(
                            scalar_text(scalar),
                            spec_expand(template@.skip(j as int + 1), m),
                        ));
                        lemma_prepend_assoc(
                            out_before,
                            scalar_text(scalar),
                            spec_expand(template@.skip(j as int + 1), m),
                        );
                    }
                    i = j + 1;
                }
                None => {
                    proof {
                        assert(spec_expand(rest, m) is None);
                    }
                    return Err(
                        GeckError::new(
                            ErrorKind::Driver,
                            None,
                            "path template names a missing parameter",
                        ),
                    );
                }
            }
        }
    }
    proof {
        assert(template@.skip(n as int) =~= Seq::<char>::empty());
        assert(spec_expand(Seq::empty(), m) == Some(Seq::<char>::empty()));
        assert(out@ + Seq::<char>::empty() =~= out@);
    }
    Ok(out)
}

/// Every character of a nonnegative decimal rendering is a digit.
proof fn lemma_dec_digits_plain(n: nat)
    ensures
        forall|k: int|
            0 <= k < dec_digits(n).len() ==> #[trigger] dec_digits(n)[k] != '{' && dec_digits(
                n,
            )[k] != '}',
    decreases n,
{
    if n < 10 {
    } else {
        lemma_dec_digits_plain(n / 10);
        let w = dec_digits(n);
        assert forall|k: int| 0 <= k < w.len() implies #[trigger] w[k] != '{' && w[k] != '}' by {
            if k < dec_digits(n / 10).len() {
                assert(w[k] == dec_digits(n / 10)[k]);
            } else {
                assert(w[k] == digit_char((n % 10) as int));
            }
        }
    }
}

/// The rendering of an integer or boolean parameter holds no brace.
proof fn lemma_non_str_scalar_plain(v: DictVal)
    requires
        v is Int || v is Flag,
    ensures
        forall|k: int|
            0 <= k < scalar_text(v).len() ==> #[trigger] scalar_text(v)[k] != '{' && scalar_text(
                v,
            )[k] != '}',
{
    match v {
        DictVal::Int(n) => {
            if n < 0 {
                lemma_dec_digits_plain((-n) as nat);
                let w = scalar_text(v);
                assert forall|k: int| 0 <= k < w.len() implies #[trigger] w[k] != '{' && w[k]
                    != '}' by {
                    if k > 0 {
                        assert(w[k] == dec_digits((-n) as nat)[k - 1]);
                    }
                }
            } else {
                lemma_dec_digits_plain(n as nat);
            }
        }
        _ => {}
    }
}

/// The law behind registry expansion: a well-formed template whose
/// placeholders are all bound to scalar parameters expands, and, when no
/// string parameter holds a brace, the expansion holds no brace either —
/// no placeholder marker survives.
pub proof fn lemma_expand_resolves(t: Seq<char>, m: Seq<(Seq<char>, DictVal)>)
    requires
        wf_template(t),
        forall|i: int|
            0 <= i < placeholders(t).len() ==> obj_has_key(m, #[trigger] placeholders(t)[i])
                && is_scalar(obj_val(m, placeholders(t)[i])),
        forall|i: int|
            0 <= i < m.len() ==> ((#[trigger] m[i]).1 is Str ==> (forall|k: int|
                0 <= k < m[i].1->Str_0.len() ==> #[trigger] m[i].1->Str_0[k] != '{')),
    ensures
        spec_expand(t, m) is Some,
        forall|k: int|
            0 <= k < spec_expand(t, m)->0.len() ==> #[trigger] spec_expand(t, m)->0[k] != '{',
    decreases t.len(),
{
    if t.len() == 0 {
    } else if t[0] == '{' {
        let c = find_char(t, '}');
        assert(0 <= c < t.len());
        let name = t.subrange(1, c);
        let rest = t.subrange(c + 1, t.len() as int);
        let ps = placeholders(t);
        assert(ps == seq![name] + placeholders(rest));
        assert(ps[0] == name);
        assert(obj_has_key(m, name) && is_scalar(obj_val(m, name)));
        assert forall|i: int|
            0 <= i < placeholders(rest).len() implies obj_has_key(
            m,
            #[trigger] placeholders(rest)[i],
        ) && is_scalar(obj_val(m, placeholders(rest)[i])) by {
            assert(ps[i + 1] == placeholders(rest)[i]);
        }
        lemma_expand_resolves(rest, m);
        let v = obj_val(m, name);
        let idx = obj_index_of(m, name);
        assert(0 <= idx < m.len() && m[idx].0 == name) by {
            assert(obj_has_key(m, name));
        }
        assert(v == m[idx].1);
        if v is Str {
            assert(forall|k: int|
                0 <= k < scalar_text(v).len() ==> #[trigger] scalar_text(v)[k] != '{');
        } else {
            lemma_non_str_scalar_plain(v);
        }
        let tail = spec_expand(rest, m)->0;
        let whole = scalar_text(v) + tail;
        assert(spec_expand(t, m) == Some(whole));
        assert forall|k: int| 0 <= k < whole.len() implies #[trigger] whole[k] != '{' by {
            if k < scalar_text(v).len() {
                assert(whole[k] == scalar_text(v)[k]);
            } else {
                assert(whole[k] == tail[k - scalar_text(v).len()]);
            }
        }
    } else {
        assert(placeholders(t) == placeholders(t.drop_first()));
        lemma_expand_resolves(t.drop_first(), m);
        let tail = spec_expand(t.drop_first(), m)->0;
        let whole = seq![t[0]] + tail;
        assert(spec_expand(t, m) == Some(whole));
        assert forall|k: int| 0 <= k < whole.len() implies #[trigger] whole[k] != '{' by {
            if k == 0 {
                assert(whole[0] == t[0]);
            } else {
                assert(whole[k] == tail[k - 1]);
            }
        }
    }
}

/// The law behind rejection: a template one of whose placeholders names a
/// missing parameter, or one bound to a container value, never expands —
/// the expander returns its error rather than substituting anything.
pub proof fn lemma_missing_parameter_fails(t: Seq<char>, m: Seq<(Seq<char>, DictVal)>, i: int)
    requires
        0 <= i < placeholders(t).len(),
        !(obj_has_key(m, placeholders(t)[i]) && is_scalar(obj_val(m, placeholders(t)[i]))),
    ensures
        spec_expand(t, m) is None,
    decreases t.len(),
{
    if t.len() == 0 {
    } else if t[0] == '{' {
        let c = find_char(t, '}');
        if c < 0 || c >= t.len() {
        } else {
            let name = t.subrange(1, c);
            let rest = t.subrange(c + 1, t.len() as int);
            let ps = placeholders(t);
            assert(ps == seq![name] + placeholders(rest));
            if i == 0 {
                assert(ps[0] == name);
            } else {
                assert(ps[i] == placeholders(rest)[i - 1]);
                lemma_missing_parameter_fails(rest, m, i - 1);
            }
        }
    } else {
        assert(placeholders(t) == placeholders(t.drop_first()));
        lemma_missing_parameter_fails(t.drop_first(), m, i);
    }
}

} // verus!
