//! Selection of the access-token set from named configuration values: every
//! value whose name carries the key prefix is taken, and a test token stands
//! in when none is found.

use vstd::prelude::*;

verus! {

/// Whether `s` begins with the characters of `prefix`.
pub open spec fn spec_starts_with(s: Seq<char>, prefix: Seq<char>) -> bool {
    s.len() >= prefix.len() && s.subrange(0, prefix.len() as int) == prefix
}

/// Checks whether `s` begins with `prefix`, character by character.
pub fn starts_with(s: &str, prefix: &str) -> (r: bool)
    ensures
        r == spec_starts_with(s@, prefix@),
{
    let n = prefix.unicode_len();
    let sl = s.unicode_len();
    if sl < n {
        return false;
    }
    let mut j: usize = 0;
    while j < n
        invariant
            j <= n,
            n == prefix@.len(),
            sl == s@.len(),
            n <= sl,
            forall|t: int| 0 <= t < j ==> s@[t] == prefix@[t],
        decreases n - j,
    {
        if s.get_char(j) != prefix.get_char(j) {
            proof {
                assert(s@.subrange(0, n as int) != prefix@) by {
                    if s@.subrange(0, n as int) == prefix@ {
                        assert(s@.subrange(0, n as int)[j as int] == prefix@[j as int]);
                    }
                }
            }
            return false;
        }
        j += 1;
    }
    proof {
        assert(s@.subrange(0, n as int) =~= prefix@);
    }
    true
}

/// Whether a configuration value named `name` contributes an access token.
pub open spec fn is_key_var(name: Seq<char>) -> bool {
    spec_starts_with(name, "GCS_KEY_"@)
}

/// The token values contributed by `pairs`, in order: the second component
/// of every pair whose name carries the key prefix.
pub open spec fn key_values(pairs: Seq<(String, String)>) -> Seq<Seq<char>>
    decreases pairs.len(),
{
    if pairs.len() == 0 {
        Seq::empty()
    } else {
        let rest = key_values(pairs.drop_last());
        if is_key_var(pairs.last().0@) {
            rest.push(pairs.last().1@)
        } else {
            rest
        }
    }
}

/// Selects the access-token set from named configuration values: the value
/// of every pair whose name begins with the key prefix, in order; when no
/// pair contributes, the single test token stands in.
pub fn select_keys(pairs: &Vec<(String, String)>) -> (r: Vec<String>)
    ensures
        r@.map_values(|s: String| s@) == (if key_values(pairs@).len() == 0 {
            seq!["test"@]
        } else {
            key_values(pairs@)
        }),
{
    let mut r: Vec<String> = Vec::new();
    let mut i: usize = 0;
    while i < pairs.len()
        invariant
            i <= pairs@.len(),
            r@.map_values(|s: String| s@) == key_values(pairs@.subrange(0, i as int)),
        decreases pairs@.len() - i,
    {
        let ghost prev = r@;
        let take = starts_with(pairs[i].0.as_str(), "GCS_KEY_");
        if take {
            let value = pairs[i].1.clone();
            r.push(value);
        }
        proof {
            let t = pairs@.subrange(0, i as int + 1);
            assert(t.drop_last() =~= pairs@.subrange(0, i as int));
            assert(t.last() == pairs@[i as int]);
            if take {
                assert(r@.map_values(|s: String| s@) =~= prev.map_values(|s: String| s@).push(
                    pairs@[i as int].1@,
                ));
            }
            assert(r@.map_values(|s: String| s@) == key_values(t));
        }
        i += 1;
    }
    proof {
        assert(pairs@.subrange(0, pairs@.len() as int) =~= pairs@);
    }
    if r.is_empty() {
        let mut d: Vec<String> = Vec::new();
        d.push("test".to_owned());
        proof {
            assert(d@.map_values(|s: String| s@) =~= seq!["test"@]);
        }
        d
    } else {
        r
    }
}

} // verus!
