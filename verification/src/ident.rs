//! Camera ids: random tokens of eight alphanumeric characters.

use crate::error::RegistryError;
use crate::model::CameraModel;
use crate::registry::Registry;
use crate::text::is_alphanumeric_text;
use rand::distributions::{Alphanumeric, DistString};
use rand::thread_rng;
use vstd::prelude::*;

verus! {

/// The number of characters in a camera id.
pub const CAMERA_ID_LEN: usize = 8;

/// How many tokens are drawn for one camera before the registry gives up.
pub const MAX_ID_DRAWS: usize = 64;

/// Whether `id` has the form of the ids that the registry assigns.
pub open spec fn is_camera_id(id: Seq<char>) -> bool {
    is_alphanumeric_text(id, CAMERA_ID_LEN as nat)
}

/// Calls `DistString::sample_string` of rand's `Alphanumeric` distribution on
/// the thread's generator, which `rand::thread_rng` hands out. Not proved:
/// that the string has `len` characters, each of them one of `A`-`Z`, `a`-`z`,
/// `0`-`9`. Which characters come is left open. The generator panics where the
/// system has no entropy to seed it with.
#[verifier::external_body]
fn random_alphanumeric(len: usize) -> (r: String)
    requires
        len <= isize::MAX,
    ensures
        is_alphanumeric_text(r@, len as nat),
{
    Alphanumeric.sample_string(&mut thread_rng(), len)
}

/// What becomes of a draw once one more token was looked at.
#[derive(Debug, PartialEq, Eq)]
pub enum DrawStep {
    /// The token is not in use: it is the id.
    Found(String),
    /// The token is in use, and another may be drawn.
    Again,
    /// The token is in use, and it was the last that may be drawn.
    Exhausted,
}

/// What a [`DrawStep`] is, as plain values.
pub enum DrawStepModel {
    Found(Seq<char>),
    Again,
    Exhausted,
}

impl View for DrawStep {
    type V = DrawStepModel;

    open spec fn view(&self) -> DrawStepModel {
        match *self {
            DrawStep::Found(id) => DrawStepModel::Found(id@),
            DrawStep::Again => DrawStepModel::Again,
            DrawStep::Exhausted => DrawStepModel::Exhausted,
        }
    }
}

/// What becomes of a draw of at most `draws` tokens when `token` comes after
/// `drawn` others: a token that is not in use is the id; one that is in use
/// is passed over, and the draw goes on while fewer than `draws` tokens were
/// looked at.
pub open spec fn judged(
    registry: Map<Seq<char>, CameraModel>,
    token: Seq<char>,
    drawn: nat,
    draws: nat,
) -> DrawStepModel {
    if !registry.contains_key(token) {
        DrawStepModel::Found(token)
    } else if drawn + 1 < draws {
        DrawStepModel::Again
    } else {
        DrawStepModel::Exhausted
    }
}

/// The id with which a draw of at most `draws` tokens ends, the tokens taken
/// as given: `tokens[drawn]` is the next to come. `None` where the draw ends
/// without an id.
pub open spec fn draw_result(
    registry: Map<Seq<char>, CameraModel>,
    tokens: Seq<Seq<char>>,
    drawn: nat,
    draws: nat,
) -> Option<Seq<char>>
    decreases draws - drawn,
{
    if drawn >= draws || drawn >= tokens.len() {
        None
    } else {
        match judged(registry, tokens[drawn as int], drawn, draws) {
            DrawStepModel::Found(id) => Some(id),
            DrawStepModel::Again => draw_result(registry, tokens, drawn + 1, draws),
            DrawStepModel::Exhausted => None,
        }
    }
}

/// Decides what becomes of a draw of at most `draws` tokens when `token`
/// comes after `drawn` others.
pub fn judge_draw(existing: &Registry, token: String, drawn: usize, draws: usize) -> (r: DrawStep)
    ensures
        r@ == judged(existing@, token@, drawn as nat, draws as nat),
{
    if !existing.contains(token.as_str()) {
        DrawStep::Found(token)
    } else if drawn < draws && draws - drawn > 1 {
        DrawStep::Again
    } else {
        DrawStep::Exhausted
    }
}

/// Draws random tokens until `judge_draw` ends the draw: with the first token
/// that is not the id of a camera in `existing`, or with `AllocationExhausted`
/// once `draws` tokens were in use. No token is drawn where `draws` is zero.
///
/// Which tokens come is chance, so the contract says what holds of every
/// outcome; `judge_draw` says what each token leads to, and `draw_result`
/// what a given run of tokens ends with.
pub fn draw_camera_id(existing: &Registry, draws: usize) -> (r: Result<String, RegistryError>)
    ensures
        match r {
            Ok(id) => draws > 0 && is_camera_id(id@) && !existing@.contains_key(id@),
            Err(e) => e == RegistryError::AllocationExhausted,
        },
        draws > 0 && existing.records().len() == 0 ==> r is Ok,
{
    if draws == 0 {
        return Err(RegistryError::AllocationExhausted);
    }
    let mut drawn: usize = 0;
    loop
        invariant
            drawn < draws,
        decreases draws - drawn,
    {
        let token = random_alphanumeric(CAMERA_ID_LEN);
        match judge_draw(existing, token, drawn, draws) {
            DrawStep::Found(id) => {
                return Ok(id);
            },
            DrawStep::Again => {
                drawn += 1;
            },
            DrawStep::Exhausted => {
                return Err(RegistryError::AllocationExhausted);
            },
        }
    }
}

/// A fresh id for a camera to be added to `existing`: a random token that no
/// camera in it has, found within `MAX_ID_DRAWS` draws.
pub fn generate_camera_id(existing: &Registry) -> (r: Result<String, RegistryError>)
    ensures
        match r {
            Ok(id) => is_camera_id(id@) && !existing@.contains_key(id@),
            Err(e) => e == RegistryError::AllocationExhausted,
        },
        existing.records().len() == 0 ==> r is Ok,
{
    draw_camera_id(existing, MAX_ID_DRAWS)
}

/// A draw ends with the first of its tokens that is not in use: where
/// `tokens[j]` is not in use and every token from `tokens[drawn]` up to it is,
/// the draw ends with `tokens[j]`, provided that it comes within the `draws`
/// tokens allowed.
pub proof fn law_draw_takes_first_unused(
    registry: Map<Seq<char>, CameraModel>,
    tokens: Seq<Seq<char>>,
    drawn: nat,
    draws: nat,
    j: nat,
)
    requires
        drawn <= j < draws,
        j < tokens.len(),
        !registry.contains_key(tokens[j as int]),
        forall|i: int| drawn <= i < j ==> registry.contains_key(#[trigger] tokens[i]),
    ensures
        draw_result(registry, tokens, drawn, draws) == Some(tokens[j as int]),
    decreases j - drawn,
{
    if drawn < j {
        assert(registry.contains_key(tokens[drawn as int]));
        law_draw_takes_first_unused(registry, tokens, drawn + 1, draws, j);
    }
}

/// A draw whose tokens are all in use ends without an id, and it ends: after
/// the `draws` tokens allowed no further token is looked at, whatever comes
/// after them in `tokens`.
pub proof fn law_draw_gives_up_at_the_cap(
    registry: Map<Seq<char>, CameraModel>,
    tokens: Seq<Seq<char>>,
    drawn: nat,
    draws: nat,
)
    requires
        forall|i: int|
            drawn <= i < draws && i < tokens.len() ==> registry.contains_key(#[trigger] tokens[i]),
    ensures
        draw_result(registry, tokens, drawn, draws) is None,
    decreases draws - drawn,
{
    if drawn < draws && drawn < tokens.len() {
        assert(registry.contains_key(tokens[drawn as int]));
        if drawn + 1 < draws {
            law_draw_gives_up_at_the_cap(registry, tokens, drawn + 1, draws);
        }
    }
}

} // verus!
