use vstd::prelude::*;

use crate::array::string_views;
use crate::convert::Convert;
use crate::interpreter::{Artichoke, ArtichokeView, MATCH_DATA_CLASS};
use crate::matchdata::MatchData;
use crate::value::Value;

verus! {

/// The failure of `MatchData#names`.
#[derive(Debug, Clone, Copy, Hash, PartialEq, Eq, Structural)]
pub enum Error {
    Fatal,
}

/// The present names among `names`, each once, in the order of their first
/// occurrence.
pub open spec fn distinct_names(names: Seq<Option<Seq<char>>>) -> Seq<Seq<char>>
    decreases names.len(),
{
    if names.len() == 0 {
        Seq::empty()
    } else {
        let prev = distinct_names(names.drop_last());
        match names.last() {
            Some(n) => if prev.contains(n) {
                prev
            } else {
                prev.push(n)
            },
            None => prev,
        }
    }
}

/// The names that `distinct_names` reports are each present among the
/// capture-group names, every present name is reported, and none is reported
/// twice.
pub proof fn lemma_distinct_names(names: Seq<Option<Seq<char>>>)
    ensures
        distinct_names(names).no_duplicates(),
        forall|n: Seq<char>| #[trigger]
            distinct_names(names).contains(n) <==> names.contains(Some(n)),
    decreases names.len(),
{
    if names.len() > 0 {
        let init = names.drop_last();
        lemma_distinct_names(init);
        let prev = distinct_names(init);
        let last = names.len() - 1;
        assert forall|n: Seq<char>|
            names.contains(Some(n)) <==> (init.contains(Some(n)) || names[last] == Some(n)) by {
            if names.contains(Some(n)) {
                let i = choose|i: int| 0 <= i < names.len() && names[i] == Some(n);
                if i < last {
                    assert(init[i] == Some(n));
                }
            }
            if init.contains(Some(n)) {
                let i = choose|i: int| 0 <= i < init.len() && init[i] == Some(n);
                assert(names[i] == Some(n));
            }
        }
        if let Some(m) = names.last() {
            if !prev.contains(m) {
                let next = prev.push(m);
                assert forall|n: Seq<char>| next.contains(n) <==> (prev.contains(n) || n == m) by {
                    if next.contains(n) {
                        let i = choose|i: int| 0 <= i < next.len() && next[i] == n;
                        if i < prev.len() {
                            assert(prev[i] == n);
                        }
                    }
                    if prev.contains(n) {
                        let i = choose|i: int| 0 <= i < prev.len() && prev[i] == n;
                        assert(next[i] == n);
                    }
                    if n == m {
                        assert(next[prev.len() as int] == n);
                    }
                }
                assert forall|i: int, j: int|
                    0 <= i < next.len() && 0 <= j < next.len() && i != j implies next[i]
                    != next[j] by {
                    if i < prev.len() && j < prev.len() {
                        assert(prev[i] != prev[j]);
                    } else if i < prev.len() {
                        assert(prev.contains(prev[i]));
                    } else {
                        assert(prev.contains(prev[j]));
                    }
                }
            }
        }
    }
}

/// Every occurrence of `Some(b)` among `names` comes after some occurrence of
/// `Some(a)`.
pub open spec fn seen_before(names: Seq<Option<Seq<char>>>, a: Seq<char>, b: Seq<char>) -> bool {
    forall|q: int|
        0 <= q < names.len() && #[trigger] names[q] == Some(b) ==> exists|p: int|
            0 <= p < q && names[p] == Some(a)
}

/// `distinct_names` keeps the order of first occurrence: of two names that it
/// reports, the earlier one first occurs before the later one does.
pub proof fn lemma_distinct_names_order(names: Seq<Option<Seq<char>>>)
    ensures
        forall|i: int, j: int|
            0 <= i < j < distinct_names(names).len() ==> seen_before(
                names,
                #[trigger] distinct_names(names)[i],
                #[trigger] distinct_names(names)[j],
            ),
    decreases names.len(),
{
    if names.len() > 0 {
        let init = names.drop_last();
        let last = names.len() - 1;
        lemma_distinct_names_order(init);
        lemma_distinct_names(init);
        let prev = distinct_names(init);
        let all = distinct_names(names);
        assert forall|i: int, j: int| 0 <= i < j < all.len() implies seen_before(
            names,
            #[trigger] all[i],
            #[trigger] all[j],
        ) by {
            assert(all[i] == prev[i]);
            assert(prev.contains(prev[i]));
            let p0 = choose|p: int| 0 <= p < init.len() && init[p] == Some(prev[i]);
            assert forall|q: int| 0 <= q < names.len() && #[trigger] names[q] == Some(all[j]) implies exists|p: int|
                0 <= p < q && names[p] == Some(all[i]) by {
                if q < last {
                    assert(init[q] == Some(all[j]));
                    if j < prev.len() {
                        assert(seen_before(init, prev[i], prev[j]));
                        let p = choose|p: int| 0 <= p < q && init[p] == Some(prev[i]);
                        assert(names[p] == Some(all[i]));
                    } else {
                        assert(init.contains(Some(all[j])));
                        assert(prev.contains(all[j]));
                    }
                } else {
                    assert(names[p0] == Some(all[i]));
                }
            }
        }
    }
}

/// What `MatchData#names` gives on `value`: the distinct capture-group names
/// of its compiled pattern, or `Fatal` where `value` carries no `MatchData`
/// state or its pattern did not compile.
pub open spec fn names_of(interp: ArtichokeView, value: Value) -> Result<Seq<Seq<char>>, Error> {
    match interp.match_data_slot(value) {
        Err(_) => Err(Error::Fatal),
        Ok(k) => match interp.match_data[k as int].regexp.regex {
            Some(re) => Ok(distinct_names(re.names_view())),
            None => Err(Error::Fatal),
        },
    }
}

/// Whether `name` is among `names`.
fn contains_name(names: &Vec<String>, name: &String) -> (r: bool)
    ensures
        r == string_views(names@).contains(name@),
{
    let mut i: usize = 0;
    while i < names.len()
        invariant
            i <= names@.len(),
            forall|j: int| 0 <= j < i ==> (#[trigger] names@[j])@ != name@,
        decreases names.len() - i,
    {
        if names[i] == *name {
            assert(string_views(names@)[i as int] == name@);
            return true;
        }
        i += 1;
    }
    proof {
        if string_views(names@).contains(name@) {
            let j = choose|j: int| 0 <= j < names@.len() && string_views(names@)[j] == name@;
            assert(names@[j]@ == name@);
        }
    }
    false
}

/// `MatchData#names`: the distinct named capture groups of the receiver's
/// pattern, in the order of their first definition, as a runtime array of
/// strings.
pub fn method(interp: &mut Artichoke, value: &Value) -> (r: Result<Value, Error>)
    requires
        old(interp)@.wf(),
        old(interp)@.valid_value(*value),
    ensures
        final(interp)@.wf(),
        final(interp)@.extends(old(interp)@),
        match names_of(old(interp)@, *value) {
            Ok(names) => r matches Ok(v) && final(interp)@.strs_of(v) == Ok::<
                Seq<Seq<char>>,
                crate::convert::Error,
            >(names),
            Err(e) => r == Err::<Value, Error>(e) && final(interp)@ == old(interp)@,
        },
        r matches Ok(v) ==> final(interp)@.valid_value(v),
        old(interp)@.class_of(*value) != Some(MATCH_DATA_CLASS) ==> r == Err::<Value, Error>(
            Error::Fatal,
        ),
{
    let data = match MatchData::try_from_ruby(interp, value) {
        Ok(data) => data,
        Err(_) => return Err(Error::Fatal),
    };
    let regex = match &data.regexp.regex {
        Some(regex) => regex,
        None => return Err(Error::Fatal),
    };
    let ghost all = regex.names_view();
    let mut names: Vec<String> = Vec::new();
    let mut i: usize = 0;
    while i < regex.capture_names.len()
        invariant
            i <= all.len(),
            all == regex.names_view(),
            string_views(names@) == distinct_names(all.subrange(0, i as int)),
        decreases regex.capture_names.len() - i,
    {
        assert(all.subrange(0, i as int + 1).drop_last() =~= all.subrange(0, i as int));
        if let Some(name) = &regex.capture_names[i] {
            if !contains_name(&names, name) {
                names.push(name.clone());
                assert(string_views(names@) =~= distinct_names(all.subrange(0, i as int + 1)));
            }
        }
        i += 1;
    }
    assert(all.subrange(0, i as int) =~= all);
    Ok(Value::convert(interp, names))
}

} // verus!
