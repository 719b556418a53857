//! The bound on how many rows a view shows.

use vstd::prelude::*;

verus! {

/// The smaller of two natural numbers.
pub open spec fn least(a: nat, b: nat) -> nat {
    if a <= b {
        a
    } else {
        b
    }
}

/// The bounded view of `source` under `limit`: its first `limit` items, or
/// all of them where it has fewer.
pub open spec fn bounded_view<T>(source: Seq<T>, limit: nat) -> Seq<T> {
    source.take(least(limit, source.len()) as int)
}

/// What a limiter with room for `remaining` more items lets through when it
/// is offered the items of `source` one by one, in order, until it wants no
/// more or the source has none left.
pub open spec fn passed<T>(remaining: nat, source: Seq<T>) -> Seq<T>
    decreases source.len(),
{
    if remaining == 0 || source.len() == 0 {
        Seq::empty()
    } else {
        seq![source[0]] + passed((remaining - 1) as nat, source.drop_first())
    }
}

/// How many items of `source` a limiter with room for `remaining` asks for
/// before it stops: it never reads past what it lets through.
pub open spec fn pulled<T>(remaining: nat, source: Seq<T>) -> nat {
    passed(remaining, source).len()
}

/// Counts down the rows that a bounded view may still show.
///
/// The limiter owns no rows. Whoever pulls rows from the reader asks
/// `wants_row` before each pull and hands what came back to `offer`; the
/// rows that `offer` returns are the bounded view. No row is pulled once the
/// limit is reached, so the view never holds more than the limit at once.
#[derive(Clone, Copy, Debug, PartialEq, Eq, Structural)]
pub struct RowLimiter {
    remaining: usize,
}

impl View for RowLimiter {
    type V = nat;

    /// The number of rows the view may still show.
    closed spec fn view(&self) -> nat {
        self.remaining as nat
    }
}

impl RowLimiter {
    /// A limiter for a view of at most `limit` rows.
    pub fn new(limit: usize) -> (limiter: RowLimiter)
        ensures
            limiter@ == limit,
    {
        RowLimiter { remaining: limit }
    }

    /// The number of rows the view may still show.
    pub fn remaining(&self) -> (n: usize)
        ensures
            n == self@,
    {
        self.remaining
    }

    /// Whether another row should be pulled: the limit is not yet reached.
    pub fn wants_row(&self) -> (wanted: bool)
        ensures
            wanted == (self@ > 0),
    {
        self.remaining > 0
    }

    /// Takes what one pull returned and gives back what the bounded view
    /// shows of it: the row itself while there is room, which then shrinks
    /// by one; nothing once the limit is reached or the source has ended,
    /// and then the limiter stays as it was.
    pub fn offer<T>(&mut self, row: Option<T>) -> (shown: Option<T>)
        ensures
            old(self)@ > 0 && row is Some ==> shown == row && final(self)@ == old(self)@ - 1,
            old(self)@ == 0 || row is None ==> shown is None && final(self)@ == old(self)@,
    {
        match row {
            Some(r) => {
                if self.remaining > 0 {
                    self.remaining = self.remaining - 1;
                    Some(r)
                } else {
                    None
                }
            },
            None => None,
        }
    }
}

/// A bounded view is a prefix of its source and holds exactly the smaller
/// of the limit and the number of rows the source has: all of a source that
/// is shorter than the limit, nothing under a limit of zero.
pub proof fn bounded_view_length<T>(source: Seq<T>, limit: nat)
    ensures
        bounded_view(source, limit).len() == least(limit, source.len()),
        bounded_view(source, limit).is_prefix_of(source),
        limit >= source.len() ==> bounded_view(source, limit) == source,
        limit == 0 ==> bounded_view(source, limit) == Seq::<T>::empty(),
{
    let view = bounded_view(source, limit);
    assert(view.is_prefix_of(source));
    if limit >= source.len() {
        assert(view == source);
    }
}

/// Driving a limiter over a source yields exactly the bounded view: the
/// rows it lets through are the first `limit` rows of the source, or all of
/// them when the source has fewer, whatever the source holds beyond them.
pub proof fn limiter_yields_bounded_view<T>(source: Seq<T>, limit: nat)
    ensures
        passed(limit, source) == bounded_view(source, limit),
        passed(limit, source).len() == least(limit, source.len()),
        pulled(limit, source) <= limit,
    decreases source.len(),
{
    if limit == 0 || source.len() == 0 {
        assert(bounded_view(source, limit) == Seq::<T>::empty());
    } else {
        let rest = source.drop_first();
        limiter_yields_bounded_view(rest, (limit - 1) as nat);
        assert(bounded_view(source, limit) == seq![source[0]] + bounded_view(
            rest,
            (limit - 1) as nat,
        ));
    }
}

} // verus!
