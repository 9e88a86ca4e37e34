use vstd::prelude::*;

verus! {

/// The value of the first pair whose key matches, if any: OSM tags are
/// looked up by first match so duplicate keys cannot make lookups ambiguous.
pub open spec fn spec_tag_value(tags: Seq<(String, String)>, key: Seq<char>) -> Option<Seq<char>>
    decreases tags.len(),
{
    if tags.len() == 0 {
        None
    } else if tags[0].0@ == key {
        Some(tags[0].1@)
    } else {
        spec_tag_value(tags.drop_first(), key)
    }
}

/// Whether the first pair with key `key` carries exactly `value`.
pub open spec fn spec_tag_is(
    tags: Seq<(String, String)>,
    key: Seq<char>,
    value: Seq<char>,
) -> bool {
    spec_tag_value(tags, key) == Some(value)
}

/// Dropping a non-matching head leaves a lookup unchanged.
proof fn lemma_tag_value_skip(tags: Seq<(String, String)>, key: Seq<char>, i: int)
    requires
        0 <= i <= tags.len(),
        forall|j: int| 0 <= j < i ==> (#[trigger] tags[j]).0@ != key,
    ensures
        spec_tag_value(tags, key) == spec_tag_value(tags.skip(i), key),
    decreases i,
{
    if i > 0 {
        lemma_tag_value_skip(tags, key, i - 1);
        assert(tags.skip(i - 1).drop_first() =~= tags.skip(i));
        assert(tags.skip(i - 1)[0] == tags[i - 1]);
    } else {
        assert(tags.skip(0) =~= tags);
    }
}

/// Look a key up among the tags; first match wins.
pub fn tag_value<'a>(tags: &'a Vec<(String, String)>, key: &str) -> (r: Option<&'a String>)
    ensures
        match r {
            Some(v) => spec_tag_value(tags@, key@) == Some(v@),
            None => spec_tag_value(tags@, key@) is None,
        },
{
    let key_s: String = key.to_owned();
    let mut i: usize = 0;
    while i < tags.len()
        invariant
            key_s@ == key@,
            i <= tags@.len(),
            forall|j: int| 0 <= j < i ==> (#[trigger] tags@[j]).0@ != key@,
        decreases tags@.len() - i,
    {
        if tags[i].0 == key_s {
            proof {
                lemma_tag_value_skip(tags@, key@, i as int);
                assert(tags@.skip(i as int)[0] == tags@[i as int]);
            }
            return Some(&tags[i].1);
        }
        i += 1;
    }
    proof {
        lemma_tag_value_skip(tags@, key@, tags@.len() as int);
        assert(tags@.skip(tags@.len() as int).len() == 0);
    }
    None
}

/// Whether the first pair with this key carries exactly this value.
pub fn tag_is(tags: &Vec<(String, String)>, key: &str, value: &str) -> (r: bool)
    ensures
        r == spec_tag_is(tags@, key@, value@),
{
    let v = tag_value(tags, key);
    match v {
        Some(s) => {
            let value_s: String = value.to_owned();
            *s == value_s
        },
        None => false,
    }
}

} // verus!
