//! Following the list of channel records: that the outcome does not depend
//! on how many records may be taken up, and that a list which ends does so
//! within as many records as the file has bytes.

use crate::error::I2Error;
use crate::format::{channel_list, list_ends, parse_channel, walk_channels};
use crate::structs::{FileAddr, FileChannelView};
use vstd::prelude::*;
use vstd::set_lib::{lemma_int_range, lemma_len_subset, set_int_range};

verus! {

/// The number of records that are taken up when the list is followed from
/// address `addr` to its end. `None` says that `fuel` records did not lead to
/// the end.
pub open spec fn list_steps(bytes: Seq<u8>, addr: FileAddr, fuel: nat) -> Option<nat>
    decreases fuel,
{
    if addr@ == 0 {
        Some(0)
    } else {
        match parse_channel(bytes, addr@) {
            Err(_) => Some(0),
            Ok(c) => if fuel == 0 {
                None
            } else {
                match list_steps(bytes, c.next_addr, (fuel - 1) as nat) {
                    Some(k) => Some(k + 1),
                    None => None,
                }
            },
        }
    }
}

/// A walk takes up no more records than it may.
pub proof fn lemma_steps_within(bytes: Seq<u8>, addr: FileAddr, fuel: nat)
    requires
        list_steps(bytes, addr, fuel) is Some,
    ensures
        list_steps(bytes, addr, fuel).unwrap() <= fuel,
    decreases fuel,
{
    if addr@ != 0 {
        if let Ok(c) = parse_channel(bytes, addr@) {
            lemma_steps_within(bytes, c.next_addr, (fuel - 1) as nat);
        }
    }
}

/// Once enough records may be taken up to reach the end of the list, more
/// change nothing: neither the number of records taken up nor the outcome.
pub proof fn lemma_walk_fixed(
    bytes: Seq<u8>,
    addr: FileAddr,
    acc: Seq<FileChannelView>,
    fuel: nat,
    other: nat,
)
    requires
        list_steps(bytes, addr, fuel) is Some,
        other >= list_steps(bytes, addr, fuel).unwrap(),
    ensures
        list_steps(bytes, addr, other) == list_steps(bytes, addr, fuel),
        walk_channels(bytes, addr, acc, fuel) is Some,
        walk_channels(bytes, addr, acc, other) == walk_channels(bytes, addr, acc, fuel),
    decreases fuel,
{
    if addr@ != 0 {
        if let Ok(c) = parse_channel(bytes, addr@) {
            lemma_walk_fixed(bytes, c.next_addr, acc.push(c), (fuel - 1) as nat, (other - 1) as nat);
        }
    }
}

/// A walk that reaches the end of the list takes up a number of records.
pub proof fn lemma_walk_steps(bytes: Seq<u8>, addr: FileAddr, acc: Seq<FileChannelView>, fuel: nat)
    ensures
        walk_channels(bytes, addr, acc, fuel) is Some <==> list_steps(bytes, addr, fuel) is Some,
    decreases fuel,
{
    if addr@ != 0 && fuel > 0 {
        if let Ok(c) = parse_channel(bytes, addr@) {
            lemma_walk_steps(bytes, c.next_addr, acc.push(c), (fuel - 1) as nat);
        }
    }
}

/// The records that a walk to the end of the list takes up stand at
/// addresses of their own: as many positions of the file as the walk takes up
/// records, from each of which the end is no further than from the start.
proof fn lemma_steps_apart(bytes: Seq<u8>, addr: FileAddr, fuel: nat) -> (met: Set<int>)
    requires
        list_steps(bytes, addr, fuel) is Some,
    ensures
        met.finite(),
        met.len() == list_steps(bytes, addr, fuel).unwrap(),
        forall|a: int| #[trigger]
            met.contains(a) ==> {
                &&& 0 <= a < bytes.len()
                &&& a <= u32::MAX
                &&& list_steps(bytes, FileAddr(a as u32), fuel) is Some
                &&& 1 <= list_steps(bytes, FileAddr(a as u32), fuel).unwrap() <= list_steps(
                    bytes,
                    addr,
                    fuel,
                ).unwrap()
            },
    decreases fuel,
{
    if addr@ == 0 {
        Set::empty()
    } else {
        match parse_channel(bytes, addr@) {
            Err(_) => Set::empty(),
            Ok(c) => {
                let rest = (fuel - 1) as nat;
                let before = lemma_steps_apart(bytes, c.next_addr, rest);
                lemma_steps_within(bytes, c.next_addr, rest);
                assert forall|a: int| #[trigger] before.contains(a) implies list_steps(
                    bytes,
                    FileAddr(a as u32),
                    fuel,
                ) == list_steps(bytes, FileAddr(a as u32), rest) by {
                    lemma_walk_fixed(bytes, FileAddr(a as u32), Seq::empty(), rest, fuel);
                }
                assert(!before.contains(addr@));
                assert(FileAddr(addr@ as u32) == addr);
                before.insert(addr@)
            },
        }
    }
}

/// A walk that reaches the end of the list does so within as many records as
/// the file has bytes.
pub proof fn lemma_walk_bounded(
    bytes: Seq<u8>,
    addr: FileAddr,
    acc: Seq<FileChannelView>,
    fuel: nat,
)
    requires
        walk_channels(bytes, addr, acc, fuel) is Some,
    ensures
        walk_channels(bytes, addr, acc, bytes.len()) == walk_channels(bytes, addr, acc, fuel),
{
    lemma_walk_steps(bytes, addr, acc, fuel);
    let met = lemma_steps_apart(bytes, addr, fuel);
    lemma_int_range(0, bytes.len() as int);
    assert(met.subset_of(set_int_range(0, bytes.len() as int)));
    lemma_len_subset(met, set_int_range(0, bytes.len() as int));
    lemma_walk_fixed(bytes, addr, acc, fuel, bytes.len());
}

/// The list of channel records is what a walk over as many records as the
/// file has bytes finds; where that walk does not reach the end, none does.
pub proof fn lemma_channel_list_bounded(bytes: Seq<u8>, head: FileAddr)
    ensures
        channel_list(bytes, head) == match walk_channels(
            bytes,
            head,
            Seq::empty(),
            bytes.len(),
        ) {
            Some(r) => r,
            None => Err(I2Error::CyclicChannelList),
        },
{
    if list_ends(bytes, head) {
        let fuel = choose|fuel: nat| walk_channels(bytes, head, Seq::empty(), fuel) is Some;
        lemma_walk_bounded(bytes, head, Seq::empty(), fuel);
    } else {
        assert(!(walk_channels(bytes, head, Seq::empty(), bytes.len()) is Some));
    }
}

/// The list of channel records is what any walk that reaches its end finds.
pub proof fn lemma_channel_list_found(bytes: Seq<u8>, head: FileAddr, fuel: nat)
    requires
        walk_channels(bytes, head, Seq::empty(), fuel) is Some,
    ensures
        channel_list(bytes, head) == walk_channels(bytes, head, Seq::empty(), fuel).unwrap(),
{
    lemma_walk_bounded(bytes, head, Seq::empty(), fuel);
    lemma_channel_list_bounded(bytes, head);
}

} // verus!
