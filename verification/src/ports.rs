//! Reclaiming the backend's port from a stale occupant: which processes the
//! listing names, and what is run to list and to end them.

use vstd::prelude::*;
use vstd::string::*;
use crate::text::{
    chars_of, decimal, decimal_text, lossy_text, parse_i32, parsed_i32, signed_decimal,
    signed_decimal_text, split_words, texts, utf8_lossy, words_of,
};

verus! {

/// How long a probe of the port may take, in milliseconds.
pub const PROBE_TIMEOUT_MILLIS: u64 = 500;

/// How long the port is left to settle after its occupants were killed, in
/// milliseconds.
pub const SETTLE_MILLIS: u64 = 500;

/// The numbers among `parsed`, in their order.
pub open spec fn present(parsed: Seq<Option<i32>>) -> Seq<i32>
    decreases parsed.len(),
{
    if parsed.len() == 0 {
        Seq::empty()
    } else {
        match parsed.last() {
            Some(pid) => present(parsed.drop_last()).push(pid),
            None => present(parsed.drop_last()),
        }
    }
}

/// The process identifiers that a listing names: each of its words that is
/// a number, in the listing's order. Words that are no number are passed
/// over.
pub open spec fn pids_of(listing: Seq<char>) -> Seq<i32> {
    present(words_of(listing).map_values(|word: Seq<char>| parsed_i32(word)))
}

/// Keeps the words that were numbers.
pub fn keep_parsed(parsed: &Vec<Option<i32>>) -> (pids: Vec<i32>)
    ensures
        pids@ == present(parsed@),
{
    let mut pids: Vec<i32> = Vec::new();
    let mut k: usize = 0;
    while k < parsed.len()
        invariant
            k <= parsed@.len(),
            pids@ == present(parsed@.subrange(0, k as int)),
        decreases parsed@.len() - k,
    {
        proof {
            assert(parsed@.subrange(0, k + 1).drop_last() =~= parsed@.subrange(0, k as int));
        }
        match parsed[k] {
            Some(pid) => {
                pids.push(pid);
            },
            None => {},
        }
        k = k + 1;
    }
    proof {
        assert(parsed@.subrange(0, k as int) =~= parsed@);
    }
    pids
}

/// The process identifiers that the text of a listing names.
pub fn pids_in_text(listing: &str) -> (pids: Vec<i32>)
    ensures
        pids@ == pids_of(listing@),
{
    let chars = chars_of(listing);
    let words = split_words(&chars);
    let mut parsed: Vec<Option<i32>> = Vec::new();
    let mut k: usize = 0;
    while k < words.len()
        invariant
            k <= words@.len(),
            words@.len() == words_of(chars@).len(),
            forall|j: int| 0 <= j < words@.len() ==> (#[trigger] words@[j])@ == words_of(chars@)[j],
            parsed@.len() == k,
            forall|j: int| 0 <= j < k ==> parsed@[j] == parsed_i32(words_of(chars@)[j]),
        decreases words@.len() - k,
    {
        parsed.push(parse_i32(&words[k]));
        k = k + 1;
    }
    proof {
        assert(parsed@ =~= words_of(chars@).map_values(|word: Seq<char>| parsed_i32(word)));
    }
    keep_parsed(&parsed)
}

/// The processes bound to the port, from the bytes that the listing wrote.
/// An empty listing names none, so that nothing is killed.
pub fn port_occupants(listing: &Vec<u8>) -> (pids: Vec<i32>)
    ensures
        pids@ == pids_of(utf8_lossy(listing@)),
        listing@.len() == 0 ==> pids@.len() == 0,
{
    let text = lossy_text(listing);
    proof {
        if listing@.len() == 0 {
            lemma_empty_listing_names_nobody();
            assert(text@ =~= Seq::<char>::empty());
        }
    }
    pids_in_text(text.as_str())
}

/// A listing without a word names no process: where nothing occupies the
/// port, nothing is killed.
pub proof fn lemma_empty_listing_names_nobody()
    ensures
        pids_of(Seq::<char>::empty()) == Seq::<i32>::empty(),
{
    let none = Seq::<char>::empty();
    assert(words_of(none) =~= Seq::<Seq<char>>::empty());
    assert(words_of(none).map_values(|word: Seq<char>| parsed_i32(word)) =~= Seq::<
        Option<i32>,
    >::empty());
}

/// The address at which the port is probed.
pub open spec fn probe_address_text(port: u16) -> Seq<char> {
    "127.0.0.1:"@ + decimal(port as nat)
}

/// The address at which the port is probed.
pub fn probe_address(port: u16) -> (address: String)
    ensures
        address@ == probe_address_text(port),
{
    let mut address = String::from_str("127.0.0.1:");
    let digits = decimal_text(port as u32);
    address.append(digits.as_str());
    address
}

/// The arguments with which the processes bound to `port` are listed.
pub fn listing_arguments(port: u16) -> (args: Vec<String>)
    ensures
        texts(args@) == seq!["-ti"@, ":"@ + decimal(port as nat)],
{
    let mut selector = String::from_str(":");
    let digits = decimal_text(port as u32);
    selector.append(digits.as_str());
    let mut args: Vec<String> = Vec::new();
    args.push(String::from_str("-ti"));
    args.push(selector);
    proof {
        assert(texts(args@) =~= seq!["-ti"@, ":"@ + decimal(port as nat)]);
    }
    args
}

/// The arguments with which the process `pid` is killed at once.
pub fn kill_arguments(pid: i32) -> (args: Vec<String>)
    ensures
        texts(args@) == seq!["-9"@, signed_decimal(pid as int)],
{
    let mut args: Vec<String> = Vec::new();
    args.push(String::from_str("-9"));
    args.push(signed_decimal_text(pid));
    proof {
        assert(texts(args@) =~= seq!["-9"@, signed_decimal(pid as int)]);
    }
    args
}

/// What became of the port once its occupants were killed.
#[derive(Debug, Clone, Copy, PartialEq, Eq)]
pub enum Reclaim {
    /// The port was free from the start: nothing was done.
    NotNeeded,
    /// The port was occupied and is free now.
    Freed,
    /// The port is still occupied: a warning, never an error.
    StillOccupied,
}

/// Judges a reclaim from the probe before it and, where one was made, the
/// probe after it.
pub fn judge_reclaim(occupied_before: bool, occupied_after: bool) -> (outcome: Reclaim)
    ensures
        outcome == (if !occupied_before {
            Reclaim::NotNeeded
        } else if occupied_after {
            Reclaim::StillOccupied
        } else {
            Reclaim::Freed
        }),
{
    if !occupied_before {
        Reclaim::NotNeeded
    } else if occupied_after {
        Reclaim::StillOccupied
    } else {
        Reclaim::Freed
    }
}

} // verus!
