//! Operations on topic strings.

use vstd::prelude::*;

verus! {

/// The separator between a publisher id and a topic name.
pub open spec fn separator() -> Seq<char> {
    seq![':']
}

/// `<publisher_id>:<topic>`, the namespaced form of a topic.
pub open spec fn namespaced(publisher_id: Seq<char>, topic: Seq<char>) -> Seq<char> {
    publisher_id + separator() + topic
}

/// Builds the namespaced topic `<publisher_id>:<topic>`.
pub fn namespaced_topic(publisher_id: &String, topic: &String) -> (res: String)
    ensures
        res@ == namespaced(publisher_id@, topic@),
{
    let mut res = publisher_id.clone();
    res.append(":");
    proof {
        reveal_strlit(":");
    }
    res.append(topic.as_str());
    res
}


/// `suffix` is a suffix of `s`.
pub open spec fn is_suffix_of(suffix: Seq<char>, s: Seq<char>) -> bool {
    &&& suffix.len() <= s.len()
    &&& s.subrange(s.len() - suffix.len(), s.len() as int) == suffix
}

/// The characters of `s`, in order.
fn chars_of(s: &str) -> (res: Vec<char>)
    ensures
        res@ == s@,
{
    broadcast use vstd::string::group_string_axioms;
    let mut res: Vec<char> = Vec::new();
    for c in iter: s.chars()
        invariant
            res@ == iter.seq().take(iter.index() as int),
    {
        res.push(c);
    }
    res
}


/// Whether `suffix` is a suffix of `s`.
pub fn ends_with(s: &str, suffix: &str) -> (res: bool)
    ensures
        res == is_suffix_of(suffix@, s@),
{
    let sc = chars_of(s);
    let xc = chars_of(suffix);
    if xc.len() > sc.len() {
        return false;
    }
    let off = sc.len() - xc.len();
    let mut i: usize = 0;
    while i < xc.len()
        invariant
            off + xc.len() == sc.len(),
            i <= xc.len(),
            sc@ == s@,
            xc@ == suffix@,
            forall|k: int| 0 <= k < i ==> sc@[off + k] == xc@[k],
        decreases xc.len() - i,
    {
        if sc[off + i] != xc[i] {
            assert(s@.subrange(off as int, s@.len() as int)[i as int] != suffix@[i as int]);
            return false;
        }
        i += 1;
    }
    assert(s@.subrange(off as int, s@.len() as int) =~= suffix@);
    true
}

} // verus!
