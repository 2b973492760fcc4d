//! Container tags. A tag names who a memory is about and the coarser scopes around it, and it
//! can be rebuilt from the two.
//!
//! A trailing `user:<id>` is the actor and the segments before it are grouped into `key:value`
//! tags. Without one, the last segment is the actor and each segment before it is a tag. A tag
//! without a colon is the actor outright.

use vstd::prelude::*;
use vstd::slice::slice_subrange;
use crate::text::{
    join, join_texts, same_text, split, split_of_two_texts, split_text, split_then_join,
    text_without_separator_is_one_part, texts,
};

verus! {

/// A parsed container tag: who the memory is about, plus the coarser scope tags.
#[derive(Debug, Clone, PartialEq, Eq)]
pub struct Scope {
    pub actor_id: String,
    pub container_tags: Vec<String>,
}

/// What a [`Scope`] holds.
pub struct ScopeView {
    pub actor_id: Seq<char>,
    pub container_tags: Seq<Seq<char>>,
}

impl View for Scope {
    type V = ScopeView;

    open spec fn view(&self) -> ScopeView {
        ScopeView { actor_id: self.actor_id@, container_tags: texts(self.container_tags@) }
    }
}

/// The separator between the segments of a tag.
pub open spec fn colon() -> Seq<char> {
    seq![':']
}

/// Each two segments as one `key:value` tag; a last one without a partner as it is.
pub open spec fn paired(segments: Seq<Seq<char>>) -> Seq<Seq<char>>
    decreases segments.len(),
{
    if segments.len() < 2 {
        segments
    } else {
        seq![segments[0] + colon() + segments[1]] + paired(segments.skip(2))
    }
}

/// The scope a tag stands for.
pub open spec fn parsed_scope(tag: Seq<char>) -> ScopeView {
    let segments = split(tag, ':');
    let n = segments.len() as int;
    if n < 2 {
        ScopeView { actor_id: tag, container_tags: Seq::empty() }
    } else if segments[n - 2] == "user"@ {
        ScopeView {
            actor_id: "user"@ + colon() + segments[n - 1],
            container_tags: paired(segments.take(n - 2)),
        }
    } else {
        ScopeView { actor_id: segments[n - 1], container_tags: segments.take(n - 1) }
    }
}

/// The tag a scope stands for: its tags and then its actor, joined by colons.
pub open spec fn reconstructed_tag(scope: ScopeView) -> Seq<char> {
    join(scope.container_tags.push(scope.actor_id), colon())
}

proof fn join_of_concatenation(a: Seq<Seq<char>>, b: Seq<Seq<char>>)
    requires
        a.len() > 0,
        b.len() > 0,
    ensures
        join(a + b, colon()) == join(a, colon()) + colon() + join(b, colon()),
    decreases b.len(),
{
    let c = colon();
    assert((a + b).drop_last() =~= a + b.drop_last());
    if b.len() == 1 {
        assert(a + b.drop_last() =~= a);
    } else {
        join_of_concatenation(a, b.drop_last());
        assert(join(a + b, c) =~= join(a, c) + c + join(b, c));
    }
}

proof fn join_of_pairs(segments: Seq<Seq<char>>)
    ensures
        join(paired(segments), colon()) == join(segments, colon()),
        paired(segments).len() == 0 <==> segments.len() == 0,
    decreases segments.len(),
{
    if segments.len() >= 2 {
        let c = colon();
        let rest = segments.skip(2);
        let head = segments.take(2);
        let pair = seq![segments[0] + c + segments[1]];
        join_of_pairs(rest);
        assert(head.drop_last() =~= seq![segments[0]]);
        reveal_with_fuel(join, 3);
        assert(join(head, c) =~= join(pair, c));
        assert(segments =~= head + rest);
        if rest.len() > 0 {
            join_of_concatenation(head, rest);
            join_of_concatenation(pair, paired(rest));
        } else {
            assert(paired(rest) =~= Seq::empty());
            assert(pair + paired(rest) =~= pair);
            assert(head + rest =~= head);
        }
    }
}

proof fn join_of_one_more(parts: Seq<Seq<char>>, last: Seq<char>)
    ensures
        join(parts.push(last), colon()) == if parts.len() == 0 {
            last
        } else {
            join(parts, colon()) + colon() + last
        },
{
    assert(parts.push(last).drop_last() =~= parts);
}

/// A tag comes back from the scope it was parsed into, whatever the tag.
pub proof fn tag_survives_parsing(tag: Seq<char>)
    ensures
        reconstructed_tag(parsed_scope(tag)) == tag,
{
    let c = colon();
    let segments = split(tag, ':');
    let n = segments.len() as int;
    let scope = parsed_scope(tag);
    split_then_join(tag, ':');
    join_of_one_more(scope.container_tags, scope.actor_id);
    if n >= 2 {
        if segments[n - 2] == "user"@ {
            let lead = segments.take(n - 2);
            join_of_pairs(lead);
            assert(segments =~= lead.push("user"@).push(segments[n - 1]));
            join_of_one_more(lead.push("user"@), segments[n - 1]);
            join_of_one_more(lead, "user"@);
            assert(reconstructed_tag(scope) =~= tag);
        } else {
            assert(segments =~= scope.container_tags.push(scope.actor_id));
        }
    }
}

/// Different tags name different scopes.
pub proof fn tags_of_one_scope_are_equal(a: Seq<char>, b: Seq<char>)
    requires
        parsed_scope(a) == parsed_scope(b),
    ensures
        a == b,
{
    tag_survives_parsing(a);
    tag_survives_parsing(b);
}

/// Each two segments as one `key:value` tag; a last one without a partner as it is.
fn pair_up(segments: &[String]) -> (r: Vec<String>)
    ensures
        texts(r@) == paired(texts(segments@)),
{
    let ghost all = texts(segments@);
    let mut tags: Vec<String> = Vec::new();
    let mut i: usize = 0;
    assert(all.skip(0) =~= all);
    assert(texts(tags@) + paired(all) =~= paired(all));
    while i < segments.len()
        invariant
            all == texts(segments@),
            i <= segments@.len(),
            texts(tags@) + paired(all.skip(i as int)) == paired(all),
        decreases segments@.len() - i,
    {
        let ghost before = texts(tags@);
        let ghost rest = all.skip(i as int);
        if segments.len() - i >= 2 {
            let mut tag: String = segments[i].clone();
            tag.push(':');
            tag.append(segments[i + 1].as_str());
            proof {
                assert(tag@ =~= rest[0] + colon() + rest[1]);
                assert(rest.skip(2) =~= all.skip(i + 2));
            }
            let ghost pushed = tag@;
            tags.push(tag);
            i += 2;
            assert(texts(tags@) =~= before.push(pushed));
            assert(texts(tags@) + paired(all.skip(i as int)) =~= before + paired(rest));
        } else {
            tags.push(segments[i].clone());
            i += 1;
            assert(texts(tags@) =~= before.push(rest[0]));
            assert(rest =~= seq![rest[0]]);
            assert(all.skip(i as int) =~= Seq::empty());
            assert(texts(tags@) + paired(all.skip(i as int)) =~= before + paired(rest));
        }
    }
    assert(all.skip(i as int) =~= Seq::empty());
    assert(texts(tags@) =~= paired(all));
    tags
}

/// The scope a container tag stands for.
pub fn parse_container_tag(tag: &str) -> (r: Scope)
    ensures
        r@ == parsed_scope(tag@),
{
    let mut segments: Vec<String> = split_text(tag, ':');
    let ghost all = split(tag@, ':');
    let n: usize = segments.len();
    assert(all.len() == n);
    if n < 2 {
        let container_tags: Vec<String> = Vec::new();
        assert(texts(container_tags@) =~= Seq::empty());
        return Scope { actor_id: tag.to_owned(), container_tags };
    }
    if same_text(segments[n - 2].as_str(), "user") {
        let mut actor_id: String = "user".to_owned();
        actor_id.push(':');
        actor_id.append(segments[n - 1].as_str());
        let lead: &[String] = slice_subrange(segments.as_slice(), 0, n - 2);
        let container_tags: Vec<String> = pair_up(lead);
        proof {
            assert(all[n - 2] == segments@[n - 2]@);
            assert(actor_id@ =~= "user"@ + colon() + all[n - 1]);
            assert(texts(lead@) =~= all.take(n - 2));
        }
        Scope { actor_id, container_tags }
    } else {
        let ghost before = segments@;
        assert(all[n - 2] == before[n - 2]@);
        let actor_id: String = segments[n - 1].clone();
        segments.truncate(n - 1);
        assert(texts(segments@) =~= all.take(n - 1));
        Scope { actor_id, container_tags: segments }
    }
}

/// The container tag a scope stands for.
pub fn reconstruct_container_tag(scope: &Scope) -> (r: String)
    ensures
        r@ == reconstructed_tag(scope@),
{
    let joined: String = join_texts(&scope.container_tags, ":");
    proof {
        reveal_strlit(":");
        assert(":"@ =~= colon());
        join_of_one_more(scope@.container_tags, scope@.actor_id);
    }
    if scope.container_tags.len() == 0 {
        return scope.actor_id.clone();
    }
    let mut tag: String = joined;
    tag.push(':');
    tag.append(scope.actor_id.as_str());
    assert(tag@ =~= reconstructed_tag(scope@));
    tag
}

proof fn pairs_hold_two_segments(segments: Seq<Seq<char>>)
    requires
        forall|i: int| 0 <= i < segments.len() ==> !(#[trigger] segments[i]).contains(':'),
    ensures
        forall|i: int|
            0 <= i < paired(segments).len() - 1 ==> split(#[trigger] paired(segments)[i], ':').len()
                == 2,
        paired(segments).len() > 0 ==> 1 <= split(paired(segments).last(), ':').len() <= 2,
        2 * paired(segments).len() == segments.len() || 2 * paired(segments).len()
            == segments.len() + 1,
    decreases segments.len(),
{
    if segments.len() >= 2 {
        let rest = segments.skip(2);
        let pair = segments[0] + colon() + segments[1];
        assert forall|i: int| 0 <= i < rest.len() implies !(#[trigger] rest[i]).contains(':') by {
            assert(rest[i] == segments[i + 2]);
        }
        pairs_hold_two_segments(rest);
        split_of_two_texts(segments[0], ':', segments[1]);
        text_without_separator_is_one_part(segments[0], ':');
        text_without_separator_is_one_part(segments[1], ':');
        assert(split(pair, ':').len() == 2);
        let all = paired(segments);
        assert(all == seq![pair] + paired(rest));
        assert forall|i: int| 0 <= i < all.len() - 1 implies split(#[trigger] all[i], ':').len()
            == 2 by {
            if i > 0 {
                assert(all[i] == paired(rest)[i - 1]);
            }
        }
        if paired(rest).len() > 0 {
            assert(all.last() == paired(rest).last());
        } else {
            assert(all.last() == pair);
        }
    } else if segments.len() == 1 {
        text_without_separator_is_one_part(segments[0], ':');
        assert(paired(segments).last() == segments[0]);
    }
}

/// A tag without a colon is the actor, in no container.
pub proof fn plain_tags_are_actors(tag: Seq<char>)
    requires
        !tag.contains(':'),
    ensures
        parsed_scope(tag).actor_id == tag,
        parsed_scope(tag).container_tags.len() == 0,
{
    text_without_separator_is_one_part(tag, ':');
}

/// A tag of a user alone is the actor, in no container.
pub proof fn a_user_alone_is_the_actor(id: Seq<char>)
    requires
        !id.contains(':'),
    ensures
        parsed_scope("user"@ + colon() + id).actor_id == "user"@ + colon() + id,
        parsed_scope("user"@ + colon() + id).container_tags.len() == 0,
{
    reveal_strlit("user");
    assert(!"user"@.contains(':'));
    split_of_two_texts("user"@, ':', id);
    text_without_separator_is_one_part("user"@, ':');
    text_without_separator_is_one_part(id, ':');
    let segments = split("user"@ + colon() + id, ':');
    assert(segments =~= seq!["user"@, id]);
    assert(segments.take(0) =~= Seq::empty());
}

/// A user at the end of a tag is the actor, whatever stands before. What stands before is kept
/// whole in the container tags, each of them two segments and the last one or two.
pub proof fn a_user_at_the_end_is_the_actor(lead: Seq<char>, id: Seq<char>)
    requires
        !id.contains(':'),
    ensures
        ({
            let scope = parsed_scope(lead + colon() + ("user"@ + colon() + id));
            &&& scope.actor_id == "user"@ + colon() + id
            &&& scope.container_tags.len() > 0
            &&& join(scope.container_tags, colon()) == lead
            &&& forall|i: int|
                0 <= i < scope.container_tags.len() - 1 ==> split(
                    #[trigger] scope.container_tags[i],
                    ':',
                ).len() == 2
            &&& split(scope.container_tags.last(), ':').len() <= 2
        }),
{
    reveal_strlit("user");
    assert(!"user"@.contains(':'));
    let user = "user"@ + colon() + id;
    split_of_two_texts("user"@, ':', id);
    text_without_separator_is_one_part("user"@, ':');
    text_without_separator_is_one_part(id, ':');
    split_of_two_texts(lead, ':', user);
    split_then_join(lead, ':');
    let first = split(lead, ':');
    let segments = split(lead + colon() + user, ':');
    assert(split(user, ':') =~= seq!["user"@, id]);
    assert(segments =~= first.push("user"@).push(id));
    assert(segments.take(segments.len() - 2) =~= first);
    join_of_pairs(first);
    pairs_hold_two_segments(first);
}

/// Where no user stands at the end, the last segment is the actor and each segment before it is
/// a container tag of its own.
pub proof fn the_last_segment_is_the_actor(lead: Seq<char>, last: Seq<char>)
    requires
        !last.contains(':'),
        split(lead, ':').last() != "user"@,
    ensures
        ({
            let scope = parsed_scope(lead + colon() + last);
            &&& scope.actor_id == last
            &&& join(scope.container_tags, colon()) == lead
            &&& forall|i: int|
                0 <= i < scope.container_tags.len() ==> !(#[trigger] scope.container_tags[i]).contains(
                    ':',
                )
        }),
{
    split_of_two_texts(lead, ':', last);
    text_without_separator_is_one_part(last, ':');
    split_then_join(lead, ':');
    let first = split(lead, ':');
    let segments = split(lead + colon() + last, ':');
    assert(segments =~= first.push(last));
    assert(segments.take(segments.len() - 1) =~= first);
}

} // verus!
