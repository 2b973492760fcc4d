//! What every request goes through: the container tag it names, and its limits.

use vstd::prelude::*;
use crate::container_tag::{
    parse_container_tag, parsed_scope, reconstructed_tag, tag_survives_parsing, Scope, ScopeView,
};
use crate::error::{ApiError, ApiErrorView};
use crate::text::{chars_of, text_of, texts_of};

verus! {

/// How many hits are asked for where a request says nothing.
pub const DEFAULT_LIMIT: i64 = 10;

/// The most hits a request can ask for.
pub const MAX_LIMIT: i64 = 100;

/// The limit a request gets: its own, kept between one and the most there is.
pub open spec fn clamped_limit(limit: Option<i64>) -> int {
    match limit {
        None => DEFAULT_LIMIT as int,
        Some(n) => if n < 1 {
            1
        } else if n > MAX_LIMIT {
            MAX_LIMIT as int
        } else {
            n as int
        },
    }
}

/// The limit a request gets.
pub fn clamp_limit(limit: Option<i64>) -> (r: i64)
    ensures
        r == clamped_limit(limit),
        1 <= r <= MAX_LIMIT,
{
    match limit {
        None => DEFAULT_LIMIT,
        Some(n) => if n < 1 {
            1
        } else if n > MAX_LIMIT {
            MAX_LIMIT
        } else {
            n
        },
    }
}

/// The product, kept within 64 signed bits.
pub open spec fn saturated(n: int) -> int {
    if n > i64::MAX {
        i64::MAX as int
    } else if n < i64::MIN {
        i64::MIN as int
    } else {
        n
    }
}

fn saturating_times(n: i64, factor: i64) -> (r: i64)
    requires
        0 < factor <= 8,
    ensures
        r == saturated(n * factor),
{
    assert(8 * i64::MIN <= n * factor <= 8 * i64::MAX) by (nonlinear_arith)
        requires
            i64::MIN <= n <= i64::MAX,
            0 < factor <= 8,
    ;
    let product: i128 = n as i128 * factor as i128;
    if product > i64::MAX as i128 {
        i64::MAX
    } else if product < i64::MIN as i128 {
        i64::MIN
    } else {
        product as i64
    }
}

/// The candidates fetched where a cutoff thins them afterwards: four times the limit, and at
/// most two hundred.
pub open spec fn candidate_pool(limit: i64) -> int {
    if saturated(limit * 4) < 200 {
        saturated(limit * 4)
    } else {
        200
    }
}

/// The candidates fetched where a cutoff thins them afterwards.
pub fn filter_pool(limit: i64) -> (r: i64)
    ensures
        r == candidate_pool(limit),
{
    let wide: i64 = saturating_times(limit, 4);
    if wide < 200 {
        wide
    } else {
        200
    }
}

/// The chunks fetched for a number of documents: eight each, and between fifty and two hundred.
pub open spec fn chunk_budget_for(documents: int) -> int {
    let wide = saturated(documents * 8);
    if wide < 50 {
        50
    } else if wide > 200 {
        200
    } else {
        wide
    }
}

/// The chunks fetched for a number of documents.
pub fn chunk_budget(documents: i64) -> (r: i64)
    ensures
        r == chunk_budget_for(documents as int),
{
    let wide: i64 = saturating_times(documents, 8);
    if wide < 50 {
        50
    } else if wide > 200 {
        200
    } else {
        wide
    }
}

// ---------------------------------------------------------------------------------------------
// The container tag
// ---------------------------------------------------------------------------------------------

/// The characters a tag is made of.
pub open spec fn is_tag_char(c: char) -> bool {
    ||| 'a' <= c <= 'z'
    ||| 'A' <= c <= 'Z'
    ||| '0' <= c <= '9'
    ||| c == '_'
    ||| c == ':'
    ||| c == '-'
}

/// What is wrong with a tag, if anything.
pub open spec fn tag_fault(tag: Seq<char>) -> Option<ApiErrorView> {
    if tag.len() == 0 || tag.len() > 100 {
        Some(ApiErrorView::BadRequest("containerTag must be 1 to 100 characters"@))
    } else if exists|i: int| 0 <= i < tag.len() && !is_tag_char(#[trigger] tag[i]) {
        Some(
            ApiErrorView::BadRequest("containerTag allows only letters, digits, '_', ':', '-'"@),
        )
    } else {
        None
    }
}

/// The tag a request names, in the singular field or as the only one of the plural field.
pub open spec fn named_tag(singular: Option<Seq<char>>, plural: Option<Seq<Seq<char>>>) -> Result<
    Seq<char>,
    ApiErrorView,
> {
    if singular is Some && singular->0.len() > 0 {
        Ok(singular->0)
    } else if plural is Some && plural->0.len() == 1 && plural->0[0].len() > 0 {
        Ok(plural->0[0])
    } else if plural is Some && plural->0.len() > 1 {
        Err(ApiErrorView::BadRequest("multiple containerTags is not supported yet"@))
    } else {
        Err(ApiErrorView::BadRequest("containerTag is required"@))
    }
}

/// The tag a request names, where it is a proper one.
pub open spec fn resolved_tag(
    singular: Option<Seq<char>>,
    plural: Option<Seq<Seq<char>>>,
) -> Result<Seq<char>, ApiErrorView> {
    match named_tag(singular, plural) {
        Ok(tag) => match tag_fault(tag) {
            None => Ok(tag),
            Some(e) => Err(e),
        },
        Err(e) => Err(e),
    }
}

/// A resolved tag has one to a hundred characters, all of them from the tag alphabet.
pub proof fn resolved_tags_are_proper(singular: Option<Seq<char>>, plural: Option<Seq<Seq<char>>>)
    requires
        resolved_tag(singular, plural) is Ok,
    ensures
        1 <= resolved_tag(singular, plural)->Ok_0.len() <= 100,
        forall|i: int|
            0 <= i < resolved_tag(singular, plural)->Ok_0.len() ==> is_tag_char(
                #[trigger] resolved_tag(singular, plural)->Ok_0[i],
            ),
{
}

/// A proper tag resolves to itself, whatever stands in the other field.
pub proof fn proper_tag_resolves_to_itself(tag: Seq<char>, plural: Option<Seq<Seq<char>>>)
    requires
        tag_fault(tag) is None,
    ensures
        resolved_tag(Some(tag), plural) == Ok::<_, ApiErrorView>(tag),
{
}

fn tag_char(c: char) -> (r: bool)
    ensures
        r == is_tag_char(c),
{
    ('a' <= c && c <= 'z') || ('A' <= c && c <= 'Z') || ('0' <= c && c <= '9') || c == '_' || c
        == ':' || c == '-'
}

/// Checks the shape of a tag.
pub fn validate_container_tag(tag: &str) -> (r: Result<(), ApiError>)
    ensures
        r is Ok <==> tag_fault(tag@) is None,
        r matches Err(e) ==> tag_fault(tag@) == Some(e@),
{
    let chars: Vec<char> = chars_of(tag);
    if chars.len() == 0 || chars.len() > 100 {
        return Err(ApiError::bad_request("containerTag must be 1 to 100 characters"));
    }
    let mut i: usize = 0;
    while i < chars.len()
        invariant
            chars@ == tag@,
            0 < chars@.len() <= 100,
            i <= chars@.len(),
            forall|j: int| 0 <= j < i ==> is_tag_char(#[trigger] tag@[j]),
        decreases chars@.len() - i,
    {
        if !tag_char(chars[i]) {
            assert(!is_tag_char(tag@[i as int]));
            return Err(
                ApiError::bad_request("containerTag allows only letters, digits, '_', ':', '-'"),
            );
        }
        i += 1;
    }
    Ok(())
}

/// The tag a request names, where it is a proper one.
pub fn resolve_container_tag(
    singular: Option<String>,
    plural: Option<Vec<String>>,
) -> (r: Result<String, ApiError>)
    ensures
        match r {
            Ok(tag) => resolved_tag(text_of(singular), texts_of(plural)) == Ok::<_, ApiErrorView>(
                tag@,
            ),
            Err(e) => resolved_tag(text_of(singular), texts_of(plural)) == Err::<Seq<char>, _>(e@),
        },
{
    let tag: String = match (singular, plural) {
        (Some(tag), _) if !tag.as_str().is_empty() => tag,
        (_, Some(list)) if list.len() == 1 && !list[0].as_str().is_empty() => list[0].clone(),
        (_, Some(list)) if list.len() > 1 => {
            return Err(ApiError::bad_request("multiple containerTags is not supported yet"));
        },
        _ => {
            return Err(ApiError::bad_request("containerTag is required"));
        },
    };
    match validate_container_tag(tag.as_str()) {
        Ok(()) => Ok(tag),
        Err(e) => Err(e),
    }
}

/// A request's container tag and the scope it stands for.
pub struct Target {
    pub container_tag: String,
    pub scope: Scope,
}

/// The tag and scope a request is about, where it names a proper tag.
pub fn resolve_target(singular: Option<String>, plural: Option<Vec<String>>) -> (r: Result<
    Target,
    ApiError,
>)
    ensures
        match r {
            Ok(target) => {
                &&& resolved_tag(text_of(singular), texts_of(plural)) == Ok::<_, ApiErrorView>(
                    target.container_tag@,
                )
                &&& target.scope@ == parsed_scope(target.container_tag@)
            },
            Err(e) => resolved_tag(text_of(singular), texts_of(plural)) == Err::<Seq<char>, _>(e@),
        },
{
    match resolve_container_tag(singular, plural) {
        Ok(container_tag) => {
            let scope: Scope = parse_container_tag(container_tag.as_str());
            Ok(Target { container_tag, scope })
        },
        Err(e) => Err(e),
    }
}

/// The scope of the tag a request names.
pub open spec fn resolved_scope(
    singular: Option<Seq<char>>,
    plural: Option<Seq<Seq<char>>>,
) -> ScopeView {
    parsed_scope(resolved_tag(singular, plural)->Ok_0)
}

/// The scope of the tag a request names gives that tag back, so that an answer can show it as it
/// was sent.
pub proof fn scope_gives_the_tag_back(singular: Option<Seq<char>>, plural: Option<Seq<Seq<char>>>)
    requires
        resolved_tag(singular, plural) is Ok,
    ensures
        reconstructed_tag(resolved_scope(singular, plural)) == resolved_tag(singular, plural)->Ok_0,
{
    tag_survives_parsing(resolved_tag(singular, plural)->Ok_0);
}

/// Why a request that names no proper tag is refused.
pub open spec fn target_fault(
    singular: Option<Seq<char>>,
    plural: Option<Seq<Seq<char>>>,
) -> Option<ApiErrorView> {
    match resolved_tag(singular, plural) {
        Ok(_) => None,
        Err(e) => Some(e),
    }
}

// ---------------------------------------------------------------------------------------------
// Laws
// ---------------------------------------------------------------------------------------------

/// The code of a character of the tag alphabet: a digit, a letter, a colon, a hyphen or an
/// underscore.
pub open spec fn is_tag_code(n: int) -> bool {
    48 <= n <= 58 || 65 <= n <= 90 || 97 <= n <= 122 || n == 45 || n == 95
}

/// A tag is proper exactly where it has one to a hundred characters and each is a digit, a
/// letter, a colon, a hyphen or an underscore.
pub proof fn proper_tags_by_their_codes(tag: Seq<char>)
    ensures
        tag_fault(tag) is None <==> 1 <= tag.len() <= 100 && forall|i: int|
            0 <= i < tag.len() ==> is_tag_code(#[trigger] tag[i] as int),
{
    assert forall|c: char| is_tag_char(c) == #[trigger] is_tag_code(c as int) by {}
    if tag_fault(tag) is None {
        assert forall|i: int| 0 <= i < tag.len() implies is_tag_code(#[trigger] tag[i] as int) by {
            assert(is_tag_char(tag[i]));
        }
    } else if 1 <= tag.len() <= 100 {
        let i = choose|i: int| 0 <= i < tag.len() && !is_tag_char(#[trigger] tag[i]);
        assert(!is_tag_code(tag[i] as int));
    }
}

/// The tag that is used is one that was sent: the singular one where there is one, and else the
/// only one of the plural ones; a request is refused where neither is there, where several plural
/// ones stand alone, and where the one that counts is not proper.
pub proof fn the_tag_used_is_the_tag_sent(
    singular: Option<Seq<char>>,
    plural: Option<Seq<Seq<char>>>,
)
    ensures
        singular is Some && singular->0.len() > 0 ==> (resolved_tag(singular, plural) is Ok
            <==> tag_fault(singular->0) is None),
        singular is Some && singular->0.len() > 0 ==> (resolved_tag(singular, plural) matches Ok(
            tag,
        ) ==> tag == singular->0),
        !(singular is Some && singular->0.len() > 0) && plural is Some && plural->0.len() == 1
            && plural->0[0].len() > 0 ==> (resolved_tag(singular, plural) is Ok <==> tag_fault(
            plural->0[0],
        ) is None),
        !(singular is Some && singular->0.len() > 0) ==> (resolved_tag(singular, plural) matches Ok(
            tag,
        ) ==> plural == Some(seq![tag])),
        !(singular is Some && singular->0.len() > 0) && (plural is None || plural->0.len() != 1)
            ==> resolved_tag(singular, plural) is Err,
        resolved_tag(singular, plural) matches Err(e) ==> e is BadRequest,
{
    if !(singular is Some && singular->0.len() > 0) && resolved_tag(singular, plural) is Ok {
        assert(plural->0 =~= seq![plural->0[0]]);
    }
}

/// The limit that is used is the one asked for wherever that is between one and a hundred, the
/// nearer end where it is not, and ten where none is asked for.
pub proof fn limits_are_kept_between_one_and_a_hundred(limit: Option<i64>)
    ensures
        limit is None ==> clamped_limit(limit) == 10,
        limit matches Some(n) ==> {
            &&& 1 <= n <= 100 ==> clamped_limit(limit) == n
            &&& n <= 1 ==> clamped_limit(limit) == 1
            &&& n >= 100 ==> clamped_limit(limit) == 100
        },
{
}

/// Four candidates are fetched for each hit to be shown, and eight chunks for each document, as
/// far as two hundred of either go; and never fewer than fifty chunks.
pub proof fn pools_grow_with_the_limit(limit: i64)
    requires
        1 <= limit <= 100,
    ensures
        limit <= 50 ==> candidate_pool(limit) == limit + limit + limit + limit,
        limit >= 50 ==> candidate_pool(limit) == 200,
        limit <= 6 ==> chunk_budget_for(limit as int) == 50,
        7 <= limit <= 25 ==> chunk_budget_for(limit as int) == 8 * limit,
        limit >= 25 ==> chunk_budget_for(limit as int) == 200,
{
}

/// A request without a proper container is told why: that none is there, that there are several,
/// that the tag is too short or too long, or that a character in it does not belong there.
pub proof fn refused_tags_are_told_why(
    singular: Option<Seq<char>>,
    plural: Option<Seq<Seq<char>>>,
    tag: Seq<char>,
)
    ensures
        ({
            let alone = singular is None || singular->0.len() == 0;
            &&& alone && plural is None ==> resolved_tag(singular, plural) == Err::<
                Seq<char>,
                ApiErrorView,
            >(ApiErrorView::BadRequest("containerTag is required"@))
            &&& alone && plural is Some && plural->0.len() >= 2 ==> resolved_tag(singular, plural)
                == Err::<Seq<char>, ApiErrorView>(
                ApiErrorView::BadRequest("multiple containerTags is not supported yet"@),
            )
            &&& alone && plural is Some && plural->0.len() == 0 ==> resolved_tag(singular, plural)
                == Err::<Seq<char>, ApiErrorView>(
                ApiErrorView::BadRequest("containerTag is required"@),
            )
        }),
        tag.len() > 100 ==> resolved_tag(Some(tag), plural) == Err::<Seq<char>, ApiErrorView>(
            ApiErrorView::BadRequest("containerTag must be 1 to 100 characters"@),
        ),
        1 <= tag.len() <= 100 && (exists|i: int|
            0 <= i < tag.len() && !is_tag_code(#[trigger] tag[i] as int)) ==> resolved_tag(
            Some(tag),
            plural,
        ) == Err::<Seq<char>, ApiErrorView>(
            ApiErrorView::BadRequest("containerTag allows only letters, digits, '_', ':', '-'"@),
        ),
{
    proper_tags_by_their_codes(tag);
}

} // verus!
