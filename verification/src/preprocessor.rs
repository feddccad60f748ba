//! Pre-deployment filtering of a loaded derivation list.

use vstd::prelude::*;
use crate::package::{models, spec_dedup, Derivation, DerivationModel};

verus! {

/// `t` is one of the strings in `tags`.
pub open spec fn tag_in(tags: Seq<Seq<char>>, t: Seq<char>) -> bool {
    exists|i: int| 0 <= i < tags.len() && #[trigger] tags[i] == t
}

/// The two tag lists share at least one string.
pub open spec fn has_common_tag(tags: Seq<Seq<char>>, set: Seq<Seq<char>>) -> bool {
    exists|i: int| 0 <= i < set.len() && tag_in(tags, #[trigger] set[i])
}

/// Whether a derivation survives the tag filter: one that carries an
/// enabled tag stays unless it also carries a disabled tag; one that
/// carries no enabled tag stays only in non-exclusive mode.
pub open spec fn kept_by_tags(
    m: DerivationModel,
    enabled: Seq<Seq<char>>,
    disabled: Seq<Seq<char>>,
    exclusive: bool,
) -> bool {
    if has_common_tag(m.tags, enabled) {
        !has_common_tag(m.tags, disabled)
    } else {
        !exclusive
    }
}

/// The sublist of derivations surviving the tag filter, in order.
pub open spec fn spec_filter_tags(
    s: Seq<DerivationModel>,
    enabled: Seq<Seq<char>>,
    disabled: Seq<Seq<char>>,
    exclusive: bool,
) -> Seq<DerivationModel>
    decreases s.len(),
{
    if s.len() == 0 {
        Seq::empty()
    } else if kept_by_tags(s.last(), enabled, disabled, exclusive) {
        spec_filter_tags(s.drop_last(), enabled, disabled, exclusive).push(s.last())
    } else {
        spec_filter_tags(s.drop_last(), enabled, disabled, exclusive)
    }
}

/// `t` is one of the strings in `tags`.
fn tag_in_exec(tags: &Vec<String>, t: &String) -> (r: bool)
    ensures
        r == tag_in(tags.deep_view(), t@),
{
    let len = tags.len();
    let mut i: usize = 0;
    while i < len
        invariant
            len == tags@.len(),
            i <= len,
            forall|j: int| 0 <= j < i ==> #[trigger] tags.deep_view()[j] != t@,
        decreases len - i,
    {
        if tags[i] == *t {
            proof {
                assert(tags.deep_view()[i as int] == t@);
            }
            return true;
        }
        proof {
            assert(tags.deep_view()[i as int] == tags@[i as int]@);
        }
        i = i + 1;
    }
    false
}

/// The two tag lists share at least one string.
fn has_common_tag_exec(tags: &Vec<String>, set: &Vec<String>) -> (r: bool)
    ensures
        r == has_common_tag(tags.deep_view(), set.deep_view()),
{
    let len = set.len();
    let mut i: usize = 0;
    while i < len
        invariant
            len == set@.len(),
            i <= len,
            forall|j: int| 0 <= j < i ==> !tag_in(tags.deep_view(), #[trigger] set.deep_view()[j]),
        decreases len - i,
    {
        if tag_in_exec(tags, &set[i]) {
            proof {
                assert(tag_in(tags.deep_view(), set.deep_view()[i as int]));
            }
            return true;
        }
        proof {
            assert(set.deep_view()[i as int] == set@[i as int]@);
        }
        i = i + 1;
    }
    false
}

/// Keep the derivations that carry an enabled tag and no disabled tag;
/// outside exclusive mode, also keep every derivation that carries no
/// enabled tag at all.
pub fn filter_derivations_by_tags(
    derivations: Vec<Derivation>,
    enabled_tags: Vec<String>,
    disabled_tags: Vec<String>,
    exclusive: bool,
) -> (r: Vec<Derivation>)
    ensures
        models(r@) == spec_filter_tags(
            models(derivations@),
            enabled_tags.deep_view(),
            disabled_tags.deep_view(),
            exclusive,
        ),
{
    let len = derivations.len();
    let mut out: Vec<Derivation> = Vec::new();
    let mut i: usize = 0;
    while i < len
        invariant
            len == derivations@.len(),
            i <= len,
            models(out@) =~= spec_filter_tags(
                models(derivations@).take(i as int),
                enabled_tags.deep_view(),
                disabled_tags.deep_view(),
                exclusive,
            ),
        decreases len - i,
    {
        let ghost pre = models(derivations@).take(i as int);
        let ghost post = models(derivations@).take(i + 1);
        proof {
            assert(post.drop_last() =~= pre);
            assert(post.last() == derivations@[i as int]@);
        }
        let keep = if has_common_tag_exec(&derivations[i].tags, &enabled_tags) {
            !has_common_tag_exec(&derivations[i].tags, &disabled_tags)
        } else {
            !exclusive
        };
        if keep {
            out.push(derivations[i].duplicate());
            proof {
                assert(models(out@) =~= models(out@.drop_last()).push(out@.last()@));
            }
        }
        i = i + 1;
    }
    proof {
        assert(models(derivations@).take(len as int) =~= models(derivations@));
    }
    out
}

/// Collapse persisted duplicates, keeping the first occurrence of each.
pub fn dedup(derivations: Vec<Derivation>) -> (r: Vec<Derivation>)
    ensures
        models(r@) == spec_dedup(models(derivations@)),
{
    crate::package::dedup_ref(&derivations)
}

} // verus!
