//! Offering the entries of a directory, or the streams of a file, to whoever asked for them: one
//! after the other, until there is no more room.

use crate::nt::{NtStatus, STATUS_BUFFER_OVERFLOW};
use crate::requests::{ignore_name_too_long, FillDataError};
use vstd::prelude::*;

verus! {

/// The offering of a number of entries, between two offers.
pub struct Offering {
    /// How many entries there are to offer.
    pub count: usize,
    /// The entry to offer next; once it is over, the entry for which there was no room, or none.
    pub next: usize,
    /// How it ended, once it is over.
    pub ended: Option<Result<(), NtStatus>>,
}

/// An offering before its first offer. Without entries it is over.
pub open spec fn begun(count: usize) -> Offering {
    Offering {
        count,
        next: 0,
        ended: if count == 0 {
            Some(Ok(()))
        } else {
            None
        },
    }
}

/// What the answer to an offer leaves: there is no more room, which ends it, or the next entry's
/// turn comes, whether the name was too long or not; after the last entry it is over.
pub open spec fn answered_with(offering: Offering, answer: Result<(), FillDataError>) -> Offering {
    if answer == Err::<(), FillDataError>(FillDataError::BufferFull) {
        Offering { ended: Some(Err(STATUS_BUFFER_OVERFLOW)), ..offering }
    } else {
        Offering {
            next: (offering.next + 1) as usize,
            ended: if offering.next + 1 == offering.count {
                Some(Ok(()))
            } else {
                None
            },
            ..offering
        }
    }
}

/// What a sequence of answers leaves.
pub open spec fn offered(count: usize, answers: Seq<Result<(), FillDataError>>) -> Offering
    decreases answers.len(),
{
    if answers.len() == 0 {
        begun(count)
    } else {
        answered_with(offered(count, answers.drop_last()), answers.last())
    }
}

/// Whether each of the answers is to an offer: it was not over before.
pub open spec fn are_answers(count: usize, answers: Seq<Result<(), FillDataError>>) -> bool {
    forall|k: int|
        0 <= k < answers.len() ==> (#[trigger] offered(count, answers.take(k))).ended is None
}

impl Offering {
    /// Whether an entry is left to offer, or it is over.
    pub open spec fn wf(&self) -> bool {
        match self.ended {
            None => self.next < self.count,
            Some(Ok(_)) => self.next == self.count,
            Some(Err(_)) => self.next < self.count,
        }
    }

    /// Begins to offer a number of entries.
    pub fn new(count: usize) -> (offering: Self)
        ensures
            offering == begun(count),
            offering.wf(),
    {
        if count == 0 {
            Offering { count, next: 0, ended: Some(Ok(())) }
        } else {
            Offering { count, next: 0, ended: None }
        }
    }

    /// The entry to offer next, unless it is over.
    pub fn next_entry(&self) -> (entry: Option<usize>)
        requires
            self.wf(),
        ensures
            entry == (if self.ended is None {
                Some(self.next)
            } else {
                None
            }),
            entry matches Some(i) ==> i < self.count,
    {
        match self.ended {
            None => Some(self.next),
            Some(_) => None,
        }
    }

    /// Goes on after an answer, or ends.
    pub fn answered(&mut self, answer: Result<(), FillDataError>)
        requires
            old(self).wf(),
            old(self).ended is None,
        ensures
            final(self).wf(),
            *final(self) == answered_with(*old(self), answer),
    {
        let judged: Result<(), NtStatus> = match answer {
            Ok(()) => Ok(()),
            Err(error) => ignore_name_too_long(error),
        };
        match judged {
            Ok(()) => {
                self.next = self.next + 1;
                if self.next == self.count {
                    self.ended = Some(Ok(()));
                }
            },
            Err(status) => {
                self.ended = Some(Err(status));
            },
        }
    }

    /// How it ended, if it is over.
    pub fn result(&self) -> (result: Option<Result<(), NtStatus>>)
        ensures
            result == self.ended,
    {
        self.ended
    }
}

/// What answers to offers leave is an offering in order.
proof fn offered_in_turn(count: usize, answers: Seq<Result<(), FillDataError>>)
    requires
        are_answers(count, answers),
    ensures
        ({
            let offering = offered(count, answers);
            &&& offering.count == count
            &&& offering.wf()
            &&& match offering.ended {
                None => {
                    &&& offering.next == answers.len()
                    &&& !answers.contains(Err(FillDataError::BufferFull))
                },
                Some(Ok(_)) => {
                    &&& offering.next == answers.len()
                    &&& !answers.contains(Err(FillDataError::BufferFull))
                },
                Some(Err(status)) => {
                    &&& status == STATUS_BUFFER_OVERFLOW
                    &&& answers.len() > 0
                    &&& offering.next == answers.len() - 1
                    &&& answers.last() == Err::<(), FillDataError>(FillDataError::BufferFull)
                    &&& !answers.drop_last().contains(Err(FillDataError::BufferFull))
                },
            }
        }),
    decreases answers.len(),
{
    if answers.len() > 0 {
        let rest = answers.drop_last();
        assert(rest =~= answers.take(answers.len() - 1));
        assert forall|k: int| 0 <= k < rest.len() implies (#[trigger] offered(
            count,
            rest.take(k),
        )).ended is None by {
            assert(rest.take(k) =~= answers.take(k));
        }
        offered_in_turn(count, rest);
        assert(offered(count, rest).ended is None);
        let full = Err::<(), FillDataError>(FillDataError::BufferFull);
        if answers.last() != full && answers.contains(full) {
            let k = choose|k: int| 0 <= k < answers.len() && answers[k] == full;
            assert(rest[k] == full);
        }
    }
}

/// Entries are offered each once and in order: the answer number `k` is to entry `k`. An answer
/// that there is no more room is the last one, and makes the result `STATUS_BUFFER_OVERFLOW`;
/// without such an answer, names that are too long or not, every entry is offered, and the result
/// is success exactly when the last entry was.
pub proof fn each_entry_is_offered_once(count: usize, answers: Seq<Result<(), FillDataError>>)
    requires
        forall|k: int|
            0 <= k < answers.len() ==> (#[trigger] offered(count, answers.take(k))).ended is None,
    ensures
        answers.len() <= count,
        forall|k: int|
            0 <= k < answers.len() ==> (#[trigger] offered(count, answers.take(k))).next == k,
        forall|k: int|
            0 <= k < answers.len() && #[trigger] answers[k] == Err::<(), FillDataError>(
                FillDataError::BufferFull,
            ) ==> k == answers.len() - 1,
        offered(count, answers).ended == Some(Err::<(), NtStatus>(STATUS_BUFFER_OVERFLOW))
            <==> answers.contains(Err(FillDataError::BufferFull)),
        offered(count, answers).ended == Some(Ok::<(), NtStatus>(())) <==> answers.len() == count
            && !answers.contains(Err(FillDataError::BufferFull)),
        offered(count, answers).ended is None <==> answers.len() < count && !answers.contains(
            Err(FillDataError::BufferFull),
        ),
{
    let full = Err::<(), FillDataError>(FillDataError::BufferFull);
    assert(are_answers(count, answers));
    offered_in_turn(count, answers);
    assert forall|k: int| 0 <= k < answers.len() implies (#[trigger] offered(
        count,
        answers.take(k),
    )).next == k by {
        let before = answers.take(k);
        assert forall|m: int| 0 <= m < before.len() implies (#[trigger] offered(
            count,
            before.take(m),
        )).ended is None by {
            assert(before.take(m) =~= answers.take(m));
        }
        offered_in_turn(count, before);
    }
    assert forall|k: int| 0 <= k < answers.len() && #[trigger] answers[k] == full implies k
        == answers.len() - 1 by {
        if k < answers.len() - 1 {
            assert(answers.drop_last()[k] == full);
        }
    }
    if offered(count, answers).ended is Some && offered(count, answers).ended->0 is Err {
        assert(answers[answers.len() - 1] == full);
    }
}

/// An offering begins with the first entry, and is over at once without entries; an answer changes
/// nothing but whose turn it is and whether it is over.
pub proof fn offers_go_one_by_one(offering: Offering, count: usize)
    requires
        offering.next < offering.count,
    ensures
        begun(count).count == count && begun(count).next == 0,
        begun(count).ended == (if count == 0 {
            Some(Ok::<(), NtStatus>(()))
        } else {
            None
        }),
        ({
            let full = answered_with(offering, Err(FillDataError::BufferFull));
            &&& full.next == offering.next && full.count == offering.count
            &&& full.ended is Some && full.ended->0 is Err
            &&& full.ended->0->Err_0 == 0x80000005int - 0x1_0000_0000
        }),
        forall|answer: Result<(), FillDataError>|
            answer != Err::<(), FillDataError>(FillDataError::BufferFull) ==> {
                let next = #[trigger] answered_with(offering, answer);
                &&& next.count == offering.count
                &&& next.next == offering.next + 1
                &&& next.ended == (if offering.next + 1 == offering.count {
                    Some(Ok::<(), NtStatus>(()))
                } else {
                    None
                })
            },
{
}

} // verus!
