//! The registry of running bombs, one per chat channel, and the presence it implies.
use std::collections::HashMap;
use std::sync::Arc;
use vstd::prelude::*;
use vstd::string::*;

use crate::text::decimal;

verus! {

broadcast use vstd::std_specs::hash::group_hash_axioms;

/// The bombs that are running, each under the id of the channel it runs in.
pub struct Handler<B> {
    bombs: HashMap<u64, Arc<B>>,
}

impl<B> View for Handler<B> {
    type V = Map<u64, Arc<B>>;

    closed spec fn view(&self) -> Map<u64, Arc<B>> {
        self.bombs@
    }
}

/// Relies on `Arc::clone`: the new handle shares the value of `bomb`.
#[verifier::external_body]
fn share<B>(bomb: &Arc<B>) -> (r: Arc<B>)
    ensures
        r == *bomb,
{
    Arc::clone(bomb)
}

/// Relies on the `Display` of `usize` behind `to_string`: the number in decimal.
#[verifier::external_body]
fn count_text(n: usize) -> (r: String)
    ensures
        r@ == decimal(n as nat),
{
    n.to_string()
}

impl<B> Handler<B> {
    /// A handler with no bomb running.
    pub fn new() -> (r: Handler<B>)
        ensures
            r@ == Map::<u64, Arc<B>>::empty(),
    {
        Handler { bombs: HashMap::new() }
    }

    /// Registers `bomb` as running in `channel`, in place of any bomb there before.
    pub fn start(&mut self, channel: u64, bomb: Arc<B>)
        ensures
            final(self)@ == old(self)@.insert(channel, bomb),
    {
        self.bombs.insert(channel, bomb);
    }

    /// How many bombs are running.
    pub fn bomb_count(&self) -> (r: usize)
        ensures
            r == self@.len(),
    {
        self.bombs.len()
    }
}

/// Why a command that needs a bomb cannot run.
#[derive(Debug, Clone, Copy, PartialEq, Eq, Structural)]
pub enum ErrorMessage {
    /// No bomb is running in the channel.
    NoBomb,
}

/// The bomb running in `channel`, if any.
pub fn get_bomb<B>(handler: &Handler<B>, channel: u64) -> (r: Option<Arc<B>>)
    ensures
        r is Some <==> handler@.contains_key(channel),
        r matches Some(bomb) ==> bomb == handler@[channel],
{
    match handler.bombs.get(&channel) {
        Some(bomb) => Some(share(bomb)),
        None => None,
    }
}

/// The bomb running in `channel`, or the error that there is none.
pub fn need_bomb<B>(handler: &Handler<B>, channel: u64) -> (r: Result<Arc<B>, ErrorMessage>)
    ensures
        r is Ok <==> handler@.contains_key(channel),
        r matches Ok(bomb) ==> bomb == handler@[channel],
        r matches Err(e) ==> e == ErrorMessage::NoBomb,
{
    match get_bomb(handler, channel) {
        Some(bomb) => Ok(bomb),
        None => Err(ErrorMessage::NoBomb),
    }
}

/// Whether a bomb is running in `channel`.
pub fn running_in<B>(handler: &Handler<B>, channel: u64) -> (r: bool)
    ensures
        r == handler@.contains_key(channel),
{
    handler.bombs.contains_key(&channel)
}

/// Stops tracking the bomb of `channel`. Returns whether it was still running: only the
/// first of several calls for one bomb ends it, and its caller then freezes the timer,
/// installs the drop callback and schedules a presence update.
pub fn end_bomb<B>(handler: &mut Handler<B>, channel: u64) -> (ended: bool)
    ensures
        ended == old(handler)@.contains_key(channel),
        final(handler)@ == old(handler)@.remove(channel),
{
    handler.bombs.remove(&channel).is_some()
}

/// Whether the bot shows itself available or idle.
#[derive(Debug, Clone, Copy, PartialEq, Eq, Structural)]
pub enum OnlineStatus {
    Idle,
    Online,
}

/// The status and activity line the bot shows.
#[derive(Debug, Clone, PartialEq, Eq)]
pub struct Presence {
    pub status: OnlineStatus,
    pub activity: String,
}

/// The activity line for `count` running bombs.
pub open spec fn activity_text(count: nat) -> Seq<char> {
    decimal(count) + " bomb"@ + (if count == 1 {
        ""@
    } else {
        "s"@
    }) + ". !help for help"@
}

/// The presence the bot should show: idle with no bomb running, online otherwise, and the
/// number of running bombs.
pub fn update_presence<B>(handler: &Handler<B>) -> (r: Presence)
    ensures
        r.status == (if handler@.len() == 0 {
            OnlineStatus::Idle
        } else {
            OnlineStatus::Online
        }),
        r.activity@ == activity_text(handler@.len()),
{
    let bomb_count = handler.bomb_count();
    let status = if bomb_count == 0 {
        OnlineStatus::Idle
    } else {
        OnlineStatus::Online
    };
    let plural = if bomb_count == 1 {
        ""
    } else {
        "s"
    };
    let activity = count_text(bomb_count).concat(" bomb").concat(plural).concat(
        ". !help for help",
    );
    Presence { status, activity }
}

} // verus!
