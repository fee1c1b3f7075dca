//! The stage that keeps a prefix of its inputs.
//!
//! Its count argument follows the usual head conventions: `N` or `+N` keeps
//! the first `N` entries, `-N` keeps everything but the last `N`.

use vstd::prelude::*;

use crate::flow::flush_onto;
use crate::flow::lemma_flush_onto_accepting;
use crate::flow::Sink;
use crate::flow::Stream;
use crate::parse_num::all_digits;
use crate::parse_num::digits_val;
use crate::parse_num::is_digit_char;
use crate::parse_num::parse_usize_bytes;
use crate::record::Entry;
use crate::record::EntryV;
use crate::record::entries_view;
use crate::validates::ValidationError;

verus! {

/// The sign prefix of a count argument.
pub enum HeadCountSign {
    POSITIVE,
    NEGATIVE,
    UNSPECIFIED,
}

pub open spec fn sign_is_positive(sign: HeadCountSign, default: bool) -> bool {
    match sign {
        HeadCountSign::POSITIVE => true,
        HeadCountSign::NEGATIVE => false,
        HeadCountSign::UNSPECIFIED => default,
    }
}

impl HeadCountSign {
    /// Resolves an unspecified sign against the stage's default reading.
    pub fn is_positive(&self, default: bool) -> (r: bool)
        ensures
            r == sign_is_positive(*self, default),
    {
        match self {
            HeadCountSign::POSITIVE => true,
            HeadCountSign::NEGATIVE => false,
            HeadCountSign::UNSPECIFIED => default,
        }
    }
}

/// A parsed count argument: an optional sign and a count.
pub struct HeadCountOption {
    pub sign: HeadCountSign,
    pub n: usize,
}

impl Default for HeadCountOption {
    /// Without an argument the stage keeps ten entries.
    fn default() -> (r: HeadCountOption)
        ensures
            r.sign is UNSPECIFIED,
            r.n == 10,
    {
        HeadCountOption { sign: HeadCountSign::UNSPECIFIED, n: 10 }
    }
}

/// The sign spelled by a count argument.
pub open spec fn arg_sign(arg: Seq<char>) -> HeadCountSign {
    if arg.len() > 0 && arg[0] == '+' {
        HeadCountSign::POSITIVE
    } else if arg.len() > 0 && arg[0] == '-' {
        HeadCountSign::NEGATIVE
    } else {
        HeadCountSign::UNSPECIFIED
    }
}

/// The digits of a count argument: everything after the sign, if any.
pub open spec fn arg_digits(arg: Seq<char>) -> Seq<char> {
    if arg.len() > 0 && (arg[0] == '+' || arg[0] == '-') {
        arg.drop_first()
    } else {
        arg
    }
}

/// A count argument is well-formed when its digit part is a non-empty
/// decimal number that fits in `usize`.
pub open spec fn arg_ok(arg: Seq<char>) -> bool {
    &&& arg_digits(arg).len() > 0
    &&& all_digits(arg_digits(arg))
    &&& digits_val(arg_digits(arg)) <= usize::MAX
}

impl HeadCountOption {
    /// Replaces this option with the parse of `arg`; on a malformed
    /// argument reports the failure and leaves the option unchanged.
    pub fn set(&mut self, arg: &str) -> (r: Result<(), ValidationError>)
        ensures
            match r {
                Ok(_) => arg_ok(arg@) && final(self).sign == arg_sign(arg@)
                    && final(self).n == digits_val(arg_digits(arg@)),
                Err(_) => !arg_ok(arg@) && *final(self) == *old(self),
            },
    {
        if !arg.is_ascii() {
            proof {
                let i = choose|i: int|
                    0 <= i < arg@.len() && !('\0' <= (#[trigger] arg@[i]) <= '\u{7f}');
                if i == 0 {
                    assert(arg_digits(arg@) == arg@);
                    assert(!is_digit_char(arg_digits(arg@)[0]));
                } else {
                    if arg@.len() > 0 && (arg@[0] == '+' || arg@[0] == '-') {
                        assert(arg_digits(arg@)[i - 1] == arg@[i]);
                        assert(!is_digit_char(arg_digits(arg@)[i - 1]));
                    } else {
                        assert(!is_digit_char(arg_digits(arg@)[i]));
                    }
                }
            }
            return Err(ValidationError::message(String::from_str("count must be a number")));
        }
        proof {
            vstd::string::is_ascii_spec_bytes(arg);
        }
        let bytes = arg.as_bytes();
        let mut sign = HeadCountSign::UNSPECIFIED;
        let mut start: usize = 0;
        if bytes.len() > 0 {
            let b0 = *vstd::slice::slice_index_get(bytes, 0);
            proof {
                assert(arg@[0] as u8 == b0);
                assert('\0' <= arg@[0] <= '\u{7f}');
            }
            if b0 == 43 {
                proof {
                    assert(arg@[0] == '+');
                }
                sign = HeadCountSign::POSITIVE;
                start = 1;
            } else if b0 == 45 {
                proof {
                    assert(arg@[0] == '-');
                }
                sign = HeadCountSign::NEGATIVE;
                start = 1;
            } else {
                proof {
                    assert(arg@[0] != '+' && arg@[0] != '-');
                }
            }
        }
        let rest = vstd::slice::slice_subrange(bytes, start, bytes.len());
        let ghost rest_chars = arg@.skip(start as int);
        proof {
            assert(rest_chars =~= arg_digits(arg@));
            assert(forall|j: int|
                0 <= j < rest_chars.len() ==> rest@[j] == #[trigger] rest_chars[j] as u8);
            assert(forall|j: int|
                0 <= j < rest_chars.len() ==> '\0' <= #[trigger] rest_chars[j] <= '\u{7f}');
            assert(sign == arg_sign(arg@));
        }
        match parse_usize_bytes(rest, Ghost(rest_chars)) {
            Some(n) => {
                *self = HeadCountOption { sign, n };
                Ok(())
            },
            None => Err(ValidationError::message(String::from_str("count must be a number"))),
        }
    }
}

/// One write of the bounded-prefix stage, as a function of the stage's
/// remaining budget, the entry, the sink's log and the sink's policy:
/// the budget left, the sink's new log, and the stage's answer.
pub open spec fn prefix_step(
    rem: nat,
    e: EntryV,
    taken: Seq<EntryV>,
    policy: spec_fn(Seq<EntryV>) -> bool,
) -> (nat, Seq<EntryV>, bool) {
    if rem == 0 {
        (0 as nat, taken, false)
    } else {
        let stepped = taken.push(e);
        ((rem - 1) as nat, stepped, policy(stepped))
    }
}

/// A whole run of the bounded-prefix stage over an input sequence.
pub open spec fn prefix_run(
    rem: nat,
    inputs: Seq<EntryV>,
    taken: Seq<EntryV>,
    policy: spec_fn(Seq<EntryV>) -> bool,
) -> (nat, Seq<EntryV>)
    decreases inputs.len(),
{
    if inputs.len() == 0 {
        (rem, taken)
    } else {
        let s = prefix_step(rem, inputs[0], taken, policy);
        prefix_run(s.0, inputs.drop_first(), s.1, policy)
    }
}

/// The stage that forwards the first `remaining` entries and asks its
/// owner to stop once the budget is spent.
pub struct HeadStream {
    pub remaining: usize,
    pub log: Ghost<Seq<EntryV>>,
    pub done: Ghost<bool>,
}

impl HeadStream {
    pub fn new(n: usize) -> (r: HeadStream)
        ensures
            r.remaining == n,
            r.fed() == Seq::<EntryV>::empty(),
            !r.closed(),
            r.inv(),
    {
        HeadStream { remaining: n, log: Ghost(Seq::empty()), done: Ghost(false) }
    }
}

impl Stream for HeadStream {
    open spec fn inv(&self) -> bool {
        true
    }

    open spec fn fed(&self) -> Seq<EntryV> {
        self.log@
    }

    open spec fn closed(&self) -> bool {
        self.done@
    }

    open spec fn write_ens(
        pre: Self,
        post: Self,
        e: EntryV,
        taken0: Seq<EntryV>,
        policy: spec_fn(Seq<EntryV>) -> bool,
        taken1: Seq<EntryV>,
        r: bool,
    ) -> bool {
        let s = prefix_step(pre.remaining as nat, e, taken0, policy);
        post.remaining == s.0 && taken1 == s.1 && r == s.2
    }

    open spec fn close_ens(
        pre: Self,
        post: Self,
        taken0: Seq<EntryV>,
        policy: spec_fn(Seq<EntryV>) -> bool,
        taken1: Seq<EntryV>,
    ) -> bool {
        taken1 == taken0
    }

    fn write<D: Sink>(&mut self, e: Entry, down: &mut D) -> (r: bool) {
        self.log = Ghost(self.log@.push(e@));
        if self.remaining == 0 {
            return false;
        }
        self.remaining = self.remaining - 1;
        down.put(e)
    }

    fn close<D: Sink>(&mut self, down: &mut D) {
        self.done = Ghost(true);
    }
}

/// What is flushed by the all-but-last-`n` stage: the prefix of arrival
/// order that stops `n` entries short of the end.
pub open spec fn trim_suffix(s: Seq<EntryV>, n: int) -> Seq<EntryV> {
    if s.len() >= n {
        s.take(s.len() - n)
    } else {
        Seq::empty()
    }
}

/// The stage that buffers its whole input and, at close, emits everything
/// but the trailing `trim` entries, in arrival order.  It keeps the whole
/// input in memory on purpose: a bounded buffer would change what an
/// unbounded input observes.
pub struct SkipLastStream {
    pub trim: usize,
    pub buf: Vec<Entry>,
    pub done: Ghost<bool>,
}

impl SkipLastStream {
    pub fn new(n: usize) -> (r: SkipLastStream)
        ensures
            r.trim == n,
            r.fed() == Seq::<EntryV>::empty(),
            !r.closed(),
            r.inv(),
    {
        let r = SkipLastStream { trim: n, buf: Vec::new(), done: Ghost(false) };
        proof {
            assert(entries_view(r.buf@) =~= Seq::<EntryV>::empty());
        }
        r
    }
}

impl Stream for SkipLastStream {
    open spec fn inv(&self) -> bool {
        true
    }

    open spec fn fed(&self) -> Seq<EntryV> {
        entries_view(self.buf@)
    }

    open spec fn closed(&self) -> bool {
        self.done@
    }

    open spec fn write_ens(
        pre: Self,
        post: Self,
        e: EntryV,
        taken0: Seq<EntryV>,
        policy: spec_fn(Seq<EntryV>) -> bool,
        taken1: Seq<EntryV>,
        r: bool,
    ) -> bool {
        taken1 == taken0 && r == true && post.trim == pre.trim
    }

    open spec fn close_ens(
        pre: Self,
        post: Self,
        taken0: Seq<EntryV>,
        policy: spec_fn(Seq<EntryV>) -> bool,
        taken1: Seq<EntryV>,
    ) -> bool {
        taken1 == flush_onto(taken0, trim_suffix(pre.fed(), pre.trim as int), policy)
    }

    fn write<D: Sink>(&mut self, e: Entry, down: &mut D) -> (r: bool) {
        self.buf.push(e);
        proof {
            assert(entries_view(self.buf@) =~= entries_view(old(self).buf@).push(e@));
        }
        true
    }

    #[verifier::loop_isolation(false)]
    fn close<D: Sink>(&mut self, down: &mut D) {
        self.done = Ghost(true);
        let end = if self.buf.len() >= self.trim {
            self.buf.len() - self.trim
        } else {
            0
        };
        let ghost flush = trim_suffix(entries_view(self.buf@), self.trim as int);
        let ghost policy = |s: Seq<EntryV>| old(down).wants_after(s);
        let ghost taken0 = old(down).taken();
        proof {
            assert(flush =~= entries_view(self.buf@).take(end as int));
            assert(flush.skip(0) =~= flush);
            assert(taken0 + flush.take(0) =~= taken0);
        }
        let mut i: usize = 0;
        while i < end
            invariant
                0 <= i <= end,
                end <= self.buf@.len(),
                flush == entries_view(self.buf@).take(end as int),
                down.taken() == taken0 + flush.take(i as int),
                forall|s: Seq<EntryV>| #[trigger] down.wants_after(s) == policy(s),
                flush_onto(taken0, flush, policy) == flush_onto(
                    down.taken(),
                    flush.skip(i as int),
                    policy,
                ),
            decreases end - i,
        {
            let e = (&self.buf[i]).clone();
            proof {
                assert(flush.skip(i as int)[0] == flush[i as int]);
                assert(flush[i as int] == entries_view(self.buf@)[i as int]);
                assert(e@ == entries_view(self.buf@)[i as int]);
            }
            let keep = down.put(e);
            proof {
                assert(down.taken() =~= taken0 + flush.take(i + 1));
                assert(flush.skip(i as int).drop_first() =~= flush.skip(i + 1));
            }
            if !keep {
                proof {
                    assert(flush.skip(i as int).len() > 0);
                    assert(flush_onto(
                        taken0 + flush.take(i as int),
                        flush.skip(i as int),
                        policy,
                    ) == down.taken());
                }
                return ;
            }
            i = i + 1;
        }
        proof {
            assert(flush.skip(end as int) =~= Seq::<EntryV>::empty());
            assert(flush.take(end as int) =~= flush);
        }
    }
}

/// Typed configuration of the prefix-keeping stage.
pub struct Options {
    pub n: HeadCountOption,
}

/// The stage built from a head count: a positive (or unspecified) count
/// keeps the first `n` entries; a negative count keeps all but the last
/// `n`.
pub enum HeadStage {
    Prefix(HeadStream),
    TrimSuffix(SkipLastStream),
}

impl Stream for HeadStage {
    open spec fn inv(&self) -> bool {
        match self {
            HeadStage::Prefix(h) => h.inv(),
            HeadStage::TrimSuffix(t) => t.inv(),
        }
    }

    open spec fn fed(&self) -> Seq<EntryV> {
        match self {
            HeadStage::Prefix(h) => h.fed(),
            HeadStage::TrimSuffix(t) => t.fed(),
        }
    }

    open spec fn closed(&self) -> bool {
        match self {
            HeadStage::Prefix(h) => h.closed(),
            HeadStage::TrimSuffix(t) => t.closed(),
        }
    }

    open spec fn write_ens(
        pre: Self,
        post: Self,
        e: EntryV,
        taken0: Seq<EntryV>,
        policy: spec_fn(Seq<EntryV>) -> bool,
        taken1: Seq<EntryV>,
        r: bool,
    ) -> bool {
        match (pre, post) {
            (HeadStage::Prefix(a), HeadStage::Prefix(b)) => HeadStream::write_ens(
                a,
                b,
                e,
                taken0,
                policy,
                taken1,
                r,
            ),
            (HeadStage::TrimSuffix(a), HeadStage::TrimSuffix(b)) => SkipLastStream::write_ens(
                a,
                b,
                e,
                taken0,
                policy,
                taken1,
                r,
            ),
            _ => false,
        }
    }

    open spec fn close_ens(
        pre: Self,
        post: Self,
        taken0: Seq<EntryV>,
        policy: spec_fn(Seq<EntryV>) -> bool,
        taken1: Seq<EntryV>,
    ) -> bool {
        match (pre, post) {
            (HeadStage::Prefix(a), HeadStage::Prefix(b)) => HeadStream::close_ens(
                a,
                b,
                taken0,
                policy,
                taken1,
            ),
            (HeadStage::TrimSuffix(a), HeadStage::TrimSuffix(b)) => SkipLastStream::close_ens(
                a,
                b,
                taken0,
                policy,
                taken1,
            ),
            _ => false,
        }
    }

    fn write<D: Sink>(&mut self, e: Entry, down: &mut D) -> (r: bool) {
        match self {
            HeadStage::Prefix(h) => h.write(e, down),
            HeadStage::TrimSuffix(t) => t.write(e, down),
        }
    }

    fn close<D: Sink>(&mut self, down: &mut D) {
        match self {
            HeadStage::Prefix(h) => h.close(down),
            HeadStage::TrimSuffix(t) => t.close(down),
        }
    }
}

/// Builds the stage a head configuration calls for; an unspecified sign
/// keeps a prefix.
pub fn head_stream(o: &Options) -> (s: HeadStage)
    ensures
        s.inv(),
        !s.closed(),
        s.fed() == Seq::<EntryV>::empty(),
        sign_is_positive(o.n.sign, true) ==> (s matches HeadStage::Prefix(h) && h.remaining
            == o.n.n),
        !sign_is_positive(o.n.sign, true) ==> (s matches HeadStage::TrimSuffix(t) && t.trim
            == o.n.n),
{
    if o.n.sign.is_positive(true) {
        HeadStage::Prefix(HeadStream::new(o.n.n))
    } else {
        HeadStage::TrimSuffix(SkipLastStream::new(o.n.n))
    }
}

/// The prefix stage forwards exactly the first `min(rem, total)` entries
/// of any run whose sink accepts everything, and its budget is spent
/// exactly when at least `rem` entries arrived.
pub proof fn lemma_bounded_prefix_run(
    rem: nat,
    inputs: Seq<EntryV>,
    taken: Seq<EntryV>,
    policy: spec_fn(Seq<EntryV>) -> bool,
)
    requires
        forall|s: Seq<EntryV>| #[trigger] policy(s),
    ensures
        prefix_run(rem, inputs, taken, policy).1 == taken + inputs.take(
            vstd::math::min(rem as int, inputs.len() as int),
        ),
        prefix_run(rem, inputs, taken, policy).0 == if inputs.len() >= rem {
            0
        } else {
            rem - inputs.len()
        },
    decreases inputs.len(),
{
    if inputs.len() == 0 {
        assert(taken + inputs.take(0) =~= taken);
    } else {
        if rem == 0 {
            lemma_bounded_prefix_run(0 as nat, inputs.drop_first(), taken, policy);
            assert(inputs.drop_first().take(0) =~= inputs.take(0));
        } else {
            let stepped = taken.push(inputs[0]);
            lemma_bounded_prefix_run((rem - 1) as nat, inputs.drop_first(), stepped, policy);
            let m = vstd::math::min(rem as int, inputs.len() as int);
            assert(stepped + inputs.drop_first().take(m - 1) =~= taken + inputs.take(m));
        }
    }
}

/// Once its budget is spent, every further write of the prefix stage
/// leaves the sink untouched and answers `false` at once.
pub proof fn lemma_bounded_prefix_rejects(
    e: EntryV,
    taken: Seq<EntryV>,
    policy: spec_fn(Seq<EntryV>) -> bool,
)
    ensures
        prefix_step(0 as nat, e, taken, policy) == (0 as nat, taken, false),
{
}

/// Flushing the all-but-last-`n` stage into a sink that accepts
/// everything emits exactly the first `max(0, total - n)` entries, in
/// arrival order.
pub proof fn lemma_trim_suffix_flush(
    fed: Seq<EntryV>,
    n: int,
    taken0: Seq<EntryV>,
    policy: spec_fn(Seq<EntryV>) -> bool,
)
    requires
        forall|s: Seq<EntryV>| #[trigger] policy(s),
        n >= 0,
    ensures
        flush_onto(taken0, trim_suffix(fed, n), policy) == taken0 + trim_suffix(fed, n),
        trim_suffix(fed, n).len() == if fed.len() >= n {
            fed.len() - n
        } else {
            0
        },
        trim_suffix(fed, n) == fed.take(vstd::math::max(0, fed.len() - n)),
{
    lemma_flush_onto_accepting(taken0, trim_suffix(fed, n), policy);
    if fed.len() < n {
        assert(trim_suffix(fed, n) =~= fed.take(vstd::math::max(0, fed.len() - n)));
    }
}

} // verus!
