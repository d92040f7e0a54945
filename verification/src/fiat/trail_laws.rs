//! The life of one spend: on the trail, and at the rail.

use vstd::prelude::*;

use super::book::BookView;
use super::laws::{law_history_keeps_books_well_formed, BookOp};
use super::records::AuditEntryView;
use crate::ledger::types::ReservationId;

verus! {

/// Whether `entry` says that the spend `id` was reserved.
pub open spec fn opens(entry: AuditEntryView, id: ReservationId) -> bool {
    entry.reservation_id == Some(id) && entry.event is Reserved
}

/// Whether `entry` says that the spend `id` was committed or released.
pub open spec fn closes(entry: AuditEntryView, id: ReservationId) -> bool {
    entry.reservation_id == Some(id) && (entry.event is Committed || entry.event is Released)
}

/// How often `trail` says that the spend `id` was reserved.
pub open spec fn openings(trail: Seq<AuditEntryView>, id: ReservationId) -> nat
    decreases trail.len(),
{
    if trail.len() == 0 {
        0
    } else {
        openings(trail.drop_last(), id) + if opens(trail.last(), id) {
            1nat
        } else {
            0
        }
    }
}

/// How often `trail` says that the spend `id` was committed or released.
pub open spec fn closings(trail: Seq<AuditEntryView>, id: ReservationId) -> nat
    decreases trail.len(),
{
    if trail.len() == 0 {
        0
    } else {
        closings(trail.drop_last(), id) + if closes(trail.last(), id) {
            1nat
        } else {
            0
        }
    }
}

/// Whether `op` has the rail asked about the spend `id`.
pub open spec fn asks_rail(book: BookView, op: BookOp, id: ReservationId) -> bool {
    op matches BookOp::Execute(which, _, now) && which == id && book.readiness(id, now) is Ready
}

/// How often `ops` have the rail asked about the spend `id`.
pub open spec fn times_asked(book: BookView, ops: Seq<BookOp>, id: ReservationId) -> nat
    decreases ops.len(),
{
    if ops.len() == 0 {
        0
    } else {
        times_asked(book, ops.drop_last(), id) + if asks_rail(
            book.run(ops.drop_last()),
            ops.last(),
            id,
        ) {
            1nat
        } else {
            0
        }
    }
}

/// One for an open spend, none for any other.
pub open spec fn open_count(book: BookView, id: ReservationId) -> nat {
    if book.pending.contains_key(id.0) {
        1
    } else {
        0
    }
}

/// Each spend goes to the rail at most once, whatever is done: while it is open it has not been
/// there, and before its number is given out neither.
pub proof fn law_rail_is_asked_at_most_once(book: BookView, ops: Seq<BookOp>, id: ReservationId)
    requires
        book.wf(),
        book.admits_all(ops),
    ensures
        times_asked(book, ops, id) + open_count(book.run(ops), id) <= 1,
        id.0 >= book.run(ops).ledger.next_id ==> times_asked(book, ops, id) == 0,
    decreases ops.len(),
{
    law_history_keeps_books_well_formed(book, ops);
    if ops.len() > 0 {
        law_history_keeps_books_well_formed(book, ops.drop_last());
        law_rail_is_asked_at_most_once(book, ops.drop_last(), id);
    }
}

/// The trail of new books tells of each spend in order, whatever is done: it is reserved at most
/// once, and then committed or released at most once, which is missing exactly while it is open.
/// Nowhere on the way has it been committed or released more often than reserved. The rail was
/// asked about it no more often than the trail shows it committed or released.
pub proof fn law_trail_tells_each_spend_once(book: BookView, ops: Seq<BookOp>, id: ReservationId)
    requires
        book.wf(),
        book.admits_all(ops),
        book.audit.len() == 0,
        book.pending.len() == 0,
    ensures
        ({
            let trail = book.run(ops).audit;
            &&& openings(trail, id) <= 1
            &&& closings(trail, id) + open_count(book.run(ops), id) == openings(trail, id)
            &&& times_asked(book, ops, id) <= closings(trail, id)
            &&& id.0 >= book.run(ops).ledger.next_id ==> openings(trail, id) == 0
            &&& forall|n: int|
                0 <= n <= trail.len() ==> #[trigger] closings(trail.take(n), id) <= openings(
                    trail.take(n),
                    id,
                )
        }),
    decreases ops.len(),
{
    law_history_keeps_books_well_formed(book, ops);
    if ops.len() > 0 {
        let before = book.run(ops.drop_last());
        let next = book.run(ops);
        law_history_keeps_books_well_formed(book, ops.drop_last());
        law_trail_tells_each_spend_once(book, ops.drop_last(), id);
        if next.audit.len() > before.audit.len() {
            assert(next.audit.drop_last() =~= before.audit);
        }
        assert forall|n: int| 0 <= n <= next.audit.len() implies #[trigger] closings(
            next.audit.take(n),
            id,
        ) <= openings(next.audit.take(n), id) by {
            if n <= before.audit.len() {
                assert(next.audit.take(n) =~= before.audit.take(n));
            } else {
                assert(next.audit.take(n) =~= next.audit);
            }
        }
    } else {
        vstd::set_lib::lemma_set_subset_finite(book.ledger.held.dom(), book.pending.dom());
        assert(book.pending.dom() =~= Set::empty());
        assert(!book.pending.dom().contains(id.0));
        assert forall|n: int| 0 <= n <= book.audit.len() implies #[trigger] closings(
            book.audit.take(n),
            id,
        ) <= openings(book.audit.take(n), id) by {
            assert(book.audit.take(n).len() == 0);
        }
    }
}

} // verus!
