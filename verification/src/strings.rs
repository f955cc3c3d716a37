//! String operations that feed the iterator subsystem: characters, bytes,
//! lines with carriage-return handling, and splitting by a separator
//! string or a character predicate.

use vstd::prelude::*;
use vstd::string::StringSliceAdditionalSpecFns;

use crate::error::RuntimeError;
use crate::expr::{call_spec, KFunction};
use crate::iter::{iter_rem, KIterator, RemOut};
use crate::trusted::string_push_char;
use crate::value::{vview, Value, VV};

verus! {

broadcast use
    crate::value::lemma_seq_vview_len,
    crate::value::lemma_seq_vview_index,
;

/// The first position of a newline character, or -1 when there is none.
pub open spec fn find_newline(s: Seq<char>) -> int
    decreases s.len(),
{
    if s.len() == 0 {
        -1
    } else if s[0] == '\n' {
        0
    } else {
        let r = find_newline(s.drop_first());
        if r < 0 {
            -1
        } else {
            r + 1
        }
    }
}

proof fn lemma_find_newline_none(s: Seq<char>)
    requires
        forall|i: int| 0 <= i < s.len() ==> s[i] != '\n',
    ensures
        find_newline(s) == -1,
    decreases s.len(),
{
    if s.len() > 0 {
        assert(forall|i: int|
            0 <= i < s.drop_first().len() ==> s.drop_first()[i] == s[i + 1]);
        lemma_find_newline_none(s.drop_first());
    }
}

proof fn lemma_find_newline_at(s: Seq<char>, k: int)
    requires
        0 <= k < s.len(),
        s[k] == '\n',
        forall|i: int| 0 <= i < k ==> s[i] != '\n',
    ensures
        find_newline(s) == k,
    decreases s.len(),
{
    if k > 0 {
        assert(forall|i: int|
            0 <= i < s.drop_first().len() ==> s.drop_first()[i] == s[i + 1]);
        lemma_find_newline_at(s.drop_first(), k - 1);
    }
}

/// A line with its trailing carriage return removed.
pub open spec fn strip_cr(line: Seq<char>) -> Seq<char> {
    if line.len() > 0 && line.last() == '\r' {
        line.drop_last()
    } else {
        line
    }
}

/// The lines of a text: split at newlines, with a carriage return before
/// each newline removed, and no final empty line after a trailing
/// newline.
pub open spec fn lines_spec(s: Seq<char>) -> Seq<Seq<char>>
    decreases s.len(),
{
    if s.len() == 0 {
        Seq::empty()
    } else {
        let k = find_newline(s);
        if k < 0 || k >= s.len() {
            seq![s]
        } else {
            seq![strip_cr(s.take(k))] + lines_spec(s.skip(k + 1))
        }
    }
}

/// The outputs of a string-sequence iterator.
pub open spec fn str_outs(lines: Seq<Seq<char>>) -> Seq<RemOut> {
    Seq::new(lines.len(), |i: int| RemOut::Val(VV::Str(lines[i])))
}

fn values_of_strings(parts: Vec<String>) -> (r: Vec<Value>)
    ensures
        r@.len() == parts@.len(),
        forall|i: int| 0 <= i < r@.len() ==> vview(#[trigger] r@[i]) == VV::Str(parts@[i]@),
{
    let mut r: Vec<Value> = Vec::new();
    let n = parts.len();
    let mut parts = parts;
    let ghost pview = parts@;
    let mut i: usize = 0;
    while i < n
        invariant
            n == parts@.len(),
            parts@ == pview,
            r@.len() == i,
            i <= n,
            forall|j: int| 0 <= j < i ==> vview(#[trigger] r@[j]) == VV::Str(pview[j]@),
        decreases n - i,
    {
        let s = parts[i].clone();
        r.push(Value::Str(s));
        i = i + 1;
    }
    r
}

fn iterator_over(items: Vec<Value>) -> (r: KIterator)
    ensures
        iter_rem(r) is Some,
        iter_rem(r)->Some_0 == Seq::new(items@.len(), |i: int| RemOut::Val(vview(items@[i]))),
    decreases 0nat,
{
    let n = items.len();
    let it = KIterator::Values { items, front: 0, back: n };
    proof {
        assert(iter_rem(it)->Some_0 =~~= Seq::new(
            it->Values_items@.len(),
            |i: int| RemOut::Val(vview(it->Values_items@[i])),
        ));
    }
    it
}

/// Splits a text into its lines: carriage-return/newline pairs and bare
/// newlines both end a line, and a trailing line terminator yields no
/// final empty line. The result iterates the lines as string values.
pub fn lines(s: &str) -> (r: KIterator)
    ensures
        iter_rem(r) == Some(str_outs(lines_spec(s@))),
{
    let n = s.unicode_len();
    let mut parts: Vec<String> = Vec::new();
    let mut cur = String::new();
    proof {
        assert(cur@ + s@.skip(0) =~~= s@);
        assert(Seq::new(parts@.len(), |k: int| parts@[k]@) + lines_spec(cur@ + s@.skip(0))
            =~~= lines_spec(s@));
    }
    let mut i: usize = 0;
    while i < n
        invariant
            i <= n,
            n == s@.len(),
            forall|j: int| 0 <= j < cur@.len() ==> cur@[j] != '\n',
            lines_spec(s@) =~~= Seq::new(parts@.len(), |k: int| parts@[k]@) + lines_spec(
                cur@ + s@.skip(i as int),
            ),
        decreases n - i,
    {
        let c = s.get_char(i);
        let ghost cur0 = cur@;
        let ghost rest0 = s@.skip(i as int);
        if c == '\n' {
            let line_len = cur.as_str().unicode_len();
            let stripped = if line_len > 0 && cur.as_str().get_char(line_len - 1) == '\r' {
                cur.as_str().substring_char(0, line_len - 1).to_owned()
            } else {
                cur
            };
            proof {
                assert(stripped@ =~~= strip_cr(cur0));
                let whole = cur0 + rest0;
                assert(whole[cur0.len() as int] == '\n');
                assert(forall|j: int| 0 <= j < cur0.len() ==> #[trigger] whole[j] != '\n');
                lemma_find_newline_at(whole, cur0.len() as int);
                assert(whole.take(cur0.len() as int) =~~= cur0);
                assert(whole.skip(cur0.len() + 1int) =~~= s@.skip(i + 1));
            }
            parts.push(stripped);
            cur = String::new();
            proof {
                assert(cur@ + s@.skip(i + 1) =~~= s@.skip(i + 1));
                assert(Seq::new(parts@.len(), |k: int| parts@[k]@) =~~= Seq::new(
                    (parts@.len() - 1) as nat,
                    |k: int| parts@[k]@,
                ).push(strip_cr(cur0)));
                assert(lines_spec(s@) =~~= Seq::new(parts@.len(), |k: int| parts@[k]@)
                    + lines_spec(cur@ + s@.skip(i + 1)));
            }
        } else {
            string_push_char(&mut cur, c);
            proof {
                assert(cur@ + s@.skip(i + 1) =~~= cur0 + rest0);
            }
        }
        i = i + 1;
    }
    proof {
        assert(s@.skip(n as int) =~~= Seq::<char>::empty());
        assert(cur@ + s@.skip(n as int) =~~= cur@);
    }
    if cur.as_str().unicode_len() > 0 {
        proof {
            lemma_find_newline_none(cur@);
            assert(lines_spec(cur@) =~~= seq![cur@]);
        }
        parts.push(cur);
        proof {
            assert(lines_spec(s@) =~~= Seq::new(parts@.len(), |k: int| parts@[k]@));
        }
    } else {
        proof {
            assert(lines_spec(cur@) =~~= Seq::<Seq<char>>::empty());
            assert(lines_spec(s@) =~~= Seq::new(parts@.len(), |k: int| parts@[k]@));
        }
    }
    let values = values_of_strings(parts);
    let r = iterator_over(values);
    proof {
        assert(iter_rem(r)->Some_0 =~~= str_outs(lines_spec(s@)));
    }
    r
}

/// Splitting at every character the predicate accepts: the segments
/// between accepted characters, in order, including empty segments.
pub open spec fn split_chars_spec(s: Seq<char>, cut: Seq<bool>) -> Seq<Seq<char>>
    decreases s.len(),
{
    if s.len() == 0 {
        seq![Seq::<char>::empty()]
    } else if cut[0] {
        seq![Seq::<char>::empty()] + split_chars_spec(s.drop_first(), cut.drop_first())
    } else {
        let rest = split_chars_spec(s.drop_first(), cut.drop_first());
        if rest.len() == 0 {
            seq![seq![s[0]]]
        } else {
            seq![seq![s[0]] + rest[0]] + rest.drop_first()
        }
    }
}

/// Splits a string at every character the predicate accepts; a predicate
/// failure or non-boolean result is the failure.
pub fn split_with_predicate(s: &str, predicate: &KFunction) -> (r: Result<
    KIterator,
    RuntimeError,
>)
    ensures
        match r {
            Ok(it) => exists|cut: Seq<bool>|
                cut.len() == s@.len() && (forall|i: int|
                    0 <= i < s@.len() ==> call_spec(*predicate, seq![VV::Str(seq![s@[i]])])
                        == Some(VV::Bool(#[trigger] cut[i]))) && iter_rem(it) == Some(
                    str_outs(split_chars_spec(s@, cut)),
                ),
            Err(_) => true,
        },
{
    let n = s.unicode_len();
    let mut cut: Vec<bool> = Vec::new();
    let mut i: usize = 0;
    while i < n
        invariant
            i <= n,
            n == s@.len(),
            cut@.len() == i,
            forall|j: int|
                0 <= j < i ==> call_spec(*predicate, seq![VV::Str(seq![s@[j]])]) == Some(
                    VV::Bool(#[trigger] cut@[j]),
                ),
        decreases n - i,
    {
        let c = s.get_char(i);
        let mut one = String::new();
        string_push_char(&mut one, c);
        let mut args: Vec<Value> = Vec::new();
        args.push(Value::Str(one));
        proof {
            assert(crate::value::seq_vview(args@) =~~= seq![vview(args@[0])]);
            assert(vview(args@[0]) == VV::Str(seq![s@[i as int]]));
        }
        match crate::expr::run_function(predicate, &args) {
            Ok(Value::Bool(b)) => {
                cut.push(b);
            },
            Ok(other) => {
                return Err(
                    RuntimeError::TypeError {
                        expected: "a Bool to be returned from the predicate".to_owned(),
                        got: other.kind_name(),
                    },
                );
            },
            Err(e) => {
                return Err(e.with_prefix("string.split"));
            },
        }
        i = i + 1;
    }
    Ok(split_by_flags(s, &cut))
}

/// Splits a string at the characters marked in `cut`.
fn split_by_flags(s: &str, cut: &Vec<bool>) -> (r: KIterator)
    requires
        cut@.len() == s@.len(),
    ensures
        iter_rem(r) == Some(str_outs(split_chars_spec(s@, cut@))),
{
    let n = s.unicode_len();
    let mut parts: Vec<String> = Vec::new();
    let mut cur = String::new();
    proof {
        lemma_split_nonempty(s@, cut@);
        let whole = split_chars_spec(s@, cut@);
        assert(s@.skip(0) =~~= s@);
        assert(cut@.skip(0) =~~= cut@);
        assert(prepend_segment(cur@, whole) =~~= whole);
        assert(Seq::new(parts@.len(), |k: int| parts@[k]@) + prepend_segment(cur@, whole)
            =~~= whole);
    }
    let mut i: usize = 0;
    while i < n
        invariant
            i <= n,
            n == s@.len(),
            cut@.len() == n,
            split_chars_spec(s@, cut@) =~~= Seq::new(parts@.len(), |k: int| parts@[k]@)
                + prepend_segment(cur@, split_chars_spec(s@.skip(i as int), cut@.skip(i as int))),
        decreases n - i,
    {
        let ghost cur0 = cur@;
        let c = s.get_char(i);
        if cut[i] {
            parts.push(cur);
            cur = String::new();
            proof {
                let tail = split_chars_spec(s@.skip(i as int), cut@.skip(i as int));
                assert(s@.skip(i as int).len() > 0);
                assert(s@.skip(i as int).drop_first() =~~= s@.skip(i + 1));
                assert(cut@.skip(i as int).drop_first() =~~= cut@.skip(i + 1));
                assert(cut@.skip(i as int)[0] == cut@[i as int]);
                assert(tail == seq![Seq::<char>::empty()] + split_chars_spec(
                    s@.skip(i + 1),
                    cut@.skip(i + 1),
                ));
                assert(Seq::new(parts@.len(), |k: int| parts@[k]@) =~~= Seq::new(
                    (parts@.len() - 1) as nat,
                    |k: int| parts@[k]@,
                ).push(cur0));
                assert(split_chars_spec(s@, cut@) =~~= Seq::new(parts@.len(), |k: int| parts@[k]@)
                    + prepend_segment(cur@, split_chars_spec(s@.skip(i + 1), cut@.skip(i + 1))));
            }
        } else {
            string_push_char(&mut cur, c);
            proof {
                let tail = split_chars_spec(s@.skip(i as int), cut@.skip(i as int));
                assert(s@.skip(i as int).len() > 0);
                assert(s@.skip(i as int)[0] == s@[i as int]);
                assert(s@.skip(i as int).drop_first() =~~= s@.skip(i + 1));
                assert(cut@.skip(i as int).drop_first() =~~= cut@.skip(i + 1));
                assert(cut@.skip(i as int)[0] == cut@[i as int]);
                let tail2 = split_chars_spec(s@.skip(i + 1), cut@.skip(i + 1));
                lemma_split_nonempty(s@.skip(i + 1), cut@.skip(i + 1));
                assert(tail =~~= seq![seq![s@[i as int]] + tail2[0]] + tail2.drop_first());
                assert(prepend_segment(cur0, tail) =~~= prepend_segment(cur@, tail2));
            }
        }
        i = i + 1;
    }
    proof {
        assert(s@.skip(n as int) =~~= Seq::<char>::empty());
        assert(cut@.skip(n as int) =~~= Seq::<bool>::empty());
        assert(split_chars_spec(s@.skip(n as int), cut@.skip(n as int)) == seq![
            Seq::<char>::empty(),
        ]);
        assert(prepend_segment(cur@, seq![Seq::<char>::empty()]) =~~= seq![cur@]);
    }
    parts.push(cur);
    proof {
        assert(split_chars_spec(s@, cut@) =~~= Seq::new(parts@.len(), |k: int| parts@[k]@));
    }
    let values = values_of_strings(parts);
    let r = iterator_over(values);
    proof {
        assert(iter_rem(r)->Some_0 =~~= str_outs(split_chars_spec(s@, cut@)));
    }
    r
}

/// The tail of a split with the open segment prefixed onto its first
/// element.
pub open spec fn prepend_segment(cur: Seq<char>, rest: Seq<Seq<char>>) -> Seq<Seq<char>> {
    if rest.len() == 0 {
        seq![cur]
    } else {
        seq![cur + rest[0]] + rest.drop_first()
    }
}

proof fn lemma_split_nonempty(s: Seq<char>, cut: Seq<bool>)
    ensures
        split_chars_spec(s, cut).len() > 0,
    decreases s.len(),
{
    if s.len() > 0 && !cut[0] {
        lemma_split_nonempty(s.drop_first(), cut.drop_first());
    }
}

/// Splits a string at each occurrence of a separator character.
pub fn split_by_char(s: &str, sep: char) -> (r: KIterator)
    ensures
        exists|cut: Seq<bool>|
            cut.len() == s@.len() && (forall|i: int|
                0 <= i < s@.len() ==> #[trigger] cut[i] == (s@[i] == sep)) && iter_rem(r) == Some(
                str_outs(split_chars_spec(s@, cut)),
            ),
{
    let n = s.unicode_len();
    let mut cut: Vec<bool> = Vec::new();
    let mut i: usize = 0;
    while i < n
        invariant
            i <= n,
            n == s@.len(),
            cut@.len() == i,
            forall|j: int| 0 <= j < i ==> #[trigger] cut@[j] == (s@[j] == sep),
        decreases n - i,
    {
        cut.push(s.get_char(i) == sep);
        i = i + 1;
    }
    split_by_flags(s, &cut)
}

/// The characters of a string, each as a one-character string value.
pub fn chars(s: &String) -> (r: KIterator)
    ensures
        iter_rem(r) is Some,
        iter_rem(r)->Some_0 == Seq::new(
            s@.len(),
            |i: int| RemOut::Val(VV::Str(seq![s@[i]])),
        ),
{
    let items = crate::iter::string_chars(s);
    let r = iterator_over(items);
    proof {
        assert(iter_rem(r)->Some_0 =~~= Seq::new(
            s@.len(),
            |i: int| RemOut::Val(VV::Str(seq![s@[i]])),
        ));
    }
    r
}

/// The bytes of a string's encoding, as number values.
pub fn bytes(s: &str) -> (r: KIterator)
    ensures
        iter_rem(r) is Some,
        iter_rem(r)->Some_0 == Seq::new(
            s.spec_bytes().len(),
            |i: int| RemOut::Val(VV::Int(s.spec_bytes()[i] as int)),
        ),
{
    let raw = s.as_bytes_vec();
    let m = raw.len();
    let mut items: Vec<Value> = Vec::new();
    let mut i: usize = 0;
    while i < m
        invariant
            i <= m,
            m == raw@.len(),
            raw@ == s.spec_bytes(),
            items@.len() == i,
            forall|j: int|
                0 <= j < i ==> vview(#[trigger] items@[j]) == VV::Int(raw@[j] as int),
        decreases m - i,
    {
        items.push(Value::Number(raw[i] as i64));
        i = i + 1;
    }
    let r = iterator_over(items);
    proof {
        assert(iter_rem(r)->Some_0 =~~= Seq::new(
            s.spec_bytes().len(),
            |i: int| RemOut::Val(VV::Int(s.spec_bytes()[i] as int)),
        ));
    }
    r
}

} // verus!
