//! Throwaway test databases: their names, the slots of a pool, and the steps of a checkout.

use vstd::prelude::*;
use vstd::string::*;
use crate::error::{ArcadeDbError, FailureView, Result};
use crate::options::ClientOptions;
use crate::text;

verus! {

// ---------------------------------------------------------------------------
// Names
// ---------------------------------------------------------------------------

/// A character of a database name.
pub open spec fn name_char(c: char) -> bool {
    text::is_alnum(c) || c == '_'
}

/// The characters of `s` that a database name can hold, in order.
pub open spec fn kept(s: Seq<char>) -> Seq<char>
    decreases s.len(),
{
    if s.len() == 0 {
        s
    } else if name_char(s.last()) {
        kept(s.drop_last()).push(s.last())
    } else {
        kept(s.drop_last())
    }
}

/// The prefix that a text stands for: at most 48 of the characters that a name can hold, and
/// `test` where there are none.
pub open spec fn sanitized(s: Seq<char>) -> Seq<char> {
    let k = kept(s);
    if k.len() == 0 {
        "test"@
    } else if k.len() <= 48 {
        k
    } else {
        k.take(48)
    }
}

/// A number in lower-case hexadecimal.
pub open spec fn hexadecimal(n: nat) -> Seq<char>
    decreases n,
{
    if n < 16 {
        seq![text::hex_digit(n as int)]
    } else {
        hexadecimal(n / 16).push(text::hex_digit((n % 16) as int))
    }
}

/// The name of a spawned database.
pub open spec fn spawned_name(prefix: Seq<char>, nanos: nat, seq: nat) -> Seq<char> {
    sanitized(prefix) + "_"@ + hexadecimal(nanos) + "_"@ + text::digits(seq)
}

/// The database of a pool slot.
pub open spec fn slot_name(prefix: Seq<char>, slot: nat) -> Seq<char> {
    prefix + "_"@ + text::digits(slot)
}

proof fn lemma_kept(s: Seq<char>)
    ensures
        forall|i: int| 0 <= i < kept(s).len() ==> name_char(#[trigger] kept(s)[i]),
    decreases s.len(),
{
    if s.len() > 0 {
        let before = kept(s.drop_last());
        lemma_kept(s.drop_last());
        assert forall|i: int| 0 <= i < kept(s).len() implies name_char(#[trigger] kept(s)[i]) by {
            if i < before.len() {
                assert(kept(s)[i] == before[i]);
            }
        }
    }
}

/// A prefix that names can start with.
pub fn sanitize_prefix(prefix: &str) -> (r: String)
    ensures
        r@ == sanitized(prefix@),
{
    let chars = text::chars_of(prefix);
    let mut out = String::new();
    let mut n: usize = 0;
    assert(prefix@.take(0) =~= Seq::empty());
    for i in 0..chars.len()
        invariant
            chars@ == prefix@,
            n <= 48,
            n == out@.len(),
            n < 48 ==> out@ == kept(prefix@.take(i as int)),
            n == 48 ==> kept(prefix@.take(i as int)).len() >= 48 && out@ == kept(
                prefix@.take(i as int),
            ).take(48),
    {
        let ghost head = prefix@.take(i + 1);
        assert(head.drop_last() =~= prefix@.take(i as int));
        assert(head.last() == chars@[i as int]);
        let c = chars[i];
        if text::alnum(c) || c == '_' {
            if n < 48 {
                out.push(c);
                n = n + 1;
                assert(kept(head).take(kept(head).len() as int) =~= kept(head));
            } else {
                assert(kept(head).take(48) =~= kept(prefix@.take(i as int)).take(48));
            }
        }
    }
    assert(prefix@.take(prefix@.len() as int) =~= prefix@);
    if n == 0 {
        return "test".to_owned();
    }
    assert(n == 48 && kept(prefix@).len() == 48 ==> kept(prefix@).take(48) =~= kept(prefix@));
    out
}

fn push_hex(out: &mut String, n: u128)
    ensures
        final(out)@ == old(out)@ + hexadecimal(n as nat),
    decreases n,
{
    if n >= 16 {
        push_hex(out, n / 16);
    }
    out.push(text::hex_char((n % 16) as u8));
    assert(out@ =~= old(out)@ + hexadecimal(n as nat));
}

/// A database name that differs from those of other spawns: `{prefix}_{nanos in hex}_{seq}`,
/// `nanos` being the time and `seq` a number that no other spawn of this process has.
pub fn unique_name(prefix: &str, nanos: u128, seq: u64) -> (r: String)
    ensures
        r@ == spawned_name(prefix@, nanos as nat, seq as nat),
{
    let mut name = sanitize_prefix(prefix);
    name.append("_");
    push_hex(&mut name, nanos);
    name.append("_");
    name.append(text::unsigned_text(seq).as_str());
    name
}

// ---------------------------------------------------------------------------
// The pool
// ---------------------------------------------------------------------------

/// Settings of a pool of test databases.
#[derive(Debug)]
pub struct TestPoolBuilder {
    pub options: ClientOptions,
    pub prefix: String,
    pub size: usize,
}

/// A fixed pool of test databases, one per slot. A slot is used by one checkout at a time.
#[derive(Debug)]
pub struct TestPool {
    options: ClientOptions,
    prefix: String,
    size: usize,
    free: Vec<usize>,
}

/// Slots that occur once and lie in the pool.
pub open spec fn slots_of(free: Seq<usize>, size: nat) -> bool {
    &&& forall|i: int| 0 <= i < free.len() ==> (#[trigger] free[i]) < size
    &&& forall|i: int, j: int|
        0 <= i < j < free.len() ==> #[trigger] free[i] != #[trigger] free[j]
}

impl TestPoolBuilder {
    /// How many databases the pool has, and how many checkouts it has at a time.
    pub fn size(self, size: usize) -> (b: Self)
        ensures
            b == (TestPoolBuilder { size, ..self }),
    {
        TestPoolBuilder { size, ..self }
    }

    /// Build the pool. A pool without slots could never be checked out.
    pub fn build(self) -> (p: TestPool)
        requires
            self.size >= 1,
        ensures
            p.capacity() == self.size,
            p.label() == self.prefix@,
            p.settings() == self.options,
            p.free_slots() == Seq::new(self.size as nat, |i: int| (self.size - 1 - i) as usize),
    {
        let mut free: Vec<usize> = Vec::new();
        let size = self.size;
        for i in 0..size
            invariant
                free@ == Seq::new(i as nat, |j: int| (size - 1 - j) as usize),
        {
            free.push(size - 1 - i);
            assert(free@ =~= Seq::new((i + 1) as nat, |j: int| (size - 1 - j) as usize));
        }
        TestPool { options: self.options, prefix: self.prefix, size, free }
    }
}

impl TestPool {
    #[verifier::type_invariant]
    spec fn inv(&self) -> bool {
        slots_of(self.free@, self.size as nat)
    }

    pub closed spec fn capacity(&self) -> nat {
        self.size as nat
    }

    pub closed spec fn label(&self) -> Seq<char> {
        self.prefix@
    }

    pub closed spec fn settings(&self) -> ClientOptions {
        self.options
    }

    /// The slots that no checkout holds, the next one last.
    pub closed spec fn free_slots(&self) -> Seq<usize> {
        self.free@
    }

    /// Start a pool of eight databases named after `prefix`.
    pub fn builder(options: ClientOptions, prefix: &str) -> (b: TestPoolBuilder)
        ensures
            b.options == options,
            b.prefix@ == sanitized(prefix@),
            b.size == 8,
    {
        TestPoolBuilder { options, prefix: sanitize_prefix(prefix), size: 8 }
    }

    /// How many checkouts the pool has at a time.
    pub fn size(&self) -> (n: usize)
        ensures
            n == self.capacity(),
    {
        self.size
    }

    /// The sanitized prefix of the pool's names.
    pub fn prefix(&self) -> (r: &str)
        ensures
            r@ == self.label(),
    {
        self.prefix.as_str()
    }

    /// How many slots no checkout holds.
    pub fn available(&self) -> (n: usize)
        ensures
            n == self.free_slots().len(),
    {
        self.free.len()
    }

    /// The connection settings that checkouts start from.
    pub fn options(&self) -> (o: &ClientOptions)
        ensures
            *o == self.settings(),
    {
        &self.options
    }

    /// Take a slot, with the name of its database. A holder of a permit always finds one; that
    /// there is none is reported and no panic.
    pub fn take_slot(&mut self) -> (r: Result<(usize, String)>)
        ensures
            final(self).capacity() == old(self).capacity(),
            final(self).label() == old(self).label(),
            final(self).settings() == old(self).settings(),
            match r {
                Ok((slot, name)) => {
                    &&& old(self).free_slots().len() > 0
                    &&& slot == old(self).free_slots().last()
                    &&& slot < old(self).capacity()
                    &&& final(self).free_slots() == old(self).free_slots().drop_last()
                    &&& !final(self).free_slots().contains(slot)
                    &&& name@ == slot_name(old(self).label(), slot as nat)
                },
                Err(e) => old(self).free_slots().len() == 0 && final(self).free_slots() == old(
                    self,
                ).free_slots() && e@ == FailureView::InvalidInput(
                    "test pool: permit held but no slot free"@,
                ),
            },
    {
        proof {
            use_type_invariant(&*self);
        }
        let n = self.free.len();
        if n == 0 {
            return Err(ArcadeDbError::invalid_input("test pool: permit held but no slot free"));
        }
        let ghost before = self.free@;
        let slot = self.free[n - 1];
        let mut free: Vec<usize> = Vec::new();
        core::mem::swap(&mut free, &mut self.free);
        let _last = free.pop();
        assert(free@ =~= before.drop_last());
        self.free = free;
        assert(!self.free@.contains(slot)) by {
            if self.free@.contains(slot) {
                let i = choose|i: int| 0 <= i < self.free@.len() && self.free@[i] == slot;
                assert(before[i] == before[n - 1]);
            }
        }
        let mut name = self.prefix.clone();
        name.append("_");
        name.append(text::unsigned_text(slot as u64).as_str());
        Ok((slot, name))
    }

    /// Give a slot back.
    pub fn release_slot(&mut self, slot: usize)
        requires
            slot < old(self).capacity(),
            !old(self).free_slots().contains(slot),
        ensures
            final(self).capacity() == old(self).capacity(),
            final(self).label() == old(self).label(),
            final(self).settings() == old(self).settings(),
            final(self).free_slots() == old(self).free_slots().push(slot),
    {
        proof {
            use_type_invariant(&*self);
        }
        let ghost before = self.free@;
        let mut free: Vec<usize> = Vec::new();
        core::mem::swap(&mut free, &mut self.free);
        free.push(slot);
        proof {
            assert forall|i: int, j: int| 0 <= i < j < free@.len() implies #[trigger] free@[i]
                != #[trigger] free@[j] by {
                if j == before.len() {
                    assert(before[i] == free@[i]);
                    assert(before.contains(before[i]));
                }
            }
        }
        self.free = free;
    }
}

// ---------------------------------------------------------------------------
// Checkout
// ---------------------------------------------------------------------------

/// The steps of a checkout, once it holds a slot.
#[derive(Debug, Clone, Copy, PartialEq, Eq, Structural)]
pub enum CheckoutStep {
    /// Connect the client of the admin calls.
    ConnectAdmin,
    /// Drop what an earlier checkout left.
    DropDatabase,
    CreateDatabase,
    /// Connect the client of the new database.
    ConnectData,
    Seed,
    /// The database is the caller's.
    Ready,
}

/// What follows a step: the next one, or the failure of the checkout. Dropping may fail: there
/// may be nothing to drop. A database that is there already is as good as a new one.
pub open spec fn after_step(step: CheckoutStep, seeded: bool, failure: Option<FailureView>) -> core::result::Result<
    CheckoutStep,
    FailureView,
> {
    match (step, failure) {
        (CheckoutStep::DropDatabase, _) => Ok(CheckoutStep::CreateDatabase),
        (CheckoutStep::CreateDatabase, Some(e)) => if e is AlreadyExists {
            Ok(CheckoutStep::ConnectData)
        } else {
            Err(e)
        },
        (_, Some(e)) => Err(e),
        (CheckoutStep::ConnectAdmin, None) => Ok(CheckoutStep::DropDatabase),
        (CheckoutStep::CreateDatabase, None) => Ok(CheckoutStep::ConnectData),
        (CheckoutStep::ConnectData, None) => Ok(
            if seeded {
                CheckoutStep::Seed
            } else {
                CheckoutStep::Ready
            },
        ),
        (CheckoutStep::Seed, None) => Ok(CheckoutStep::Ready),
        (CheckoutStep::Ready, None) => Ok(CheckoutStep::Ready),
    }
}

/// What an outcome failed with.
pub open spec fn failure_of(outcome: Result<()>) -> Option<FailureView> {
    match outcome {
        Ok(_) => None,
        Err(e) => Some(e@),
    }
}

impl CheckoutStep {
    /// What follows this step; `seeded` says whether the pool has a seed step. After a failure
    /// the slot is to be released.
    pub fn after(self, outcome: Result<()>, seeded: bool) -> (r: Result<CheckoutStep>)
        ensures
            match (r, after_step(self, seeded, failure_of(outcome))) {
                (Ok(a), Ok(b)) => a == b,
                (Err(e), Err(f)) => e@ == f,
                _ => false,
            },
    {
        match (self, outcome) {
            (CheckoutStep::DropDatabase, _) => Ok(CheckoutStep::CreateDatabase),
            (CheckoutStep::CreateDatabase, outcome) => {
                tolerate_existing(outcome)?;
                Ok(CheckoutStep::ConnectData)
            },
            (_, Err(e)) => Err(e),
            (CheckoutStep::ConnectAdmin, Ok(_)) => Ok(CheckoutStep::DropDatabase),
            (CheckoutStep::ConnectData, Ok(_)) => Ok(
                if seeded {
                    CheckoutStep::Seed
                } else {
                    CheckoutStep::Ready
                },
            ),
            (CheckoutStep::Seed, Ok(_)) => Ok(CheckoutStep::Ready),
            (CheckoutStep::Ready, Ok(_)) => Ok(CheckoutStep::Ready),
        }
    }
}

/// The outcome of creating a database, where one that is there already is as good as a new one.
pub fn tolerate_existing(outcome: Result<()>) -> (r: Result<()>)
    ensures
        match (outcome, r) {
            (Ok(_), Ok(_)) => true,
            (Err(e), Ok(_)) => e@ is AlreadyExists,
            (Err(e), Err(f)) => f@ == e@ && !(e@ is AlreadyExists),
            _ => false,
        },
{
    match outcome {
        Ok(_) => Ok(()),
        Err(ArcadeDbError::AlreadyExists { what: _, message: _ }) => Ok(()),
        Err(e) => Err(e),
    }
}

// ---------------------------------------------------------------------------
// Laws
// ---------------------------------------------------------------------------

proof fn lemma_hexadecimal(n: nat)
    ensures
        forall|i: int|
            0 <= i < hexadecimal(n).len() ==> name_char(#[trigger] hexadecimal(n)[i]),
    decreases n,
{
    if n >= 16 {
        let before = hexadecimal(n / 16);
        lemma_hexadecimal(n / 16);
        assert forall|i: int| 0 <= i < hexadecimal(n).len() implies name_char(
            #[trigger] hexadecimal(n)[i],
        ) by {
            if i < before.len() {
                assert(hexadecimal(n)[i] == before[i]);
            }
        }
    }
}

/// A spawned name holds nothing but ASCII letters, digits and underscores.
pub proof fn law_spawned_names_are_plain(prefix: Seq<char>, nanos: nat, seq: nat, i: int)
    requires
        0 <= i < spawned_name(prefix, nanos, seq).len(),
    ensures
        name_char(spawned_name(prefix, nanos, seq)[i]),
        0 < sanitized(prefix).len() <= 48,
{
    lemma_kept(prefix);
    lemma_hexadecimal(nanos);
    text::lemma_digits_read_back(seq);
    reveal_strlit("test");
    reveal_strlit("_");
    assert("test"@.len() == 4);
}

proof fn lemma_tail_is_unique(a: Seq<char>, b: Seq<char>, x: Seq<char>, y: Seq<char>)
    requires
        a + seq!['_'] + x == b + seq!['_'] + y,
        forall|i: int| 0 <= i < x.len() ==> #[trigger] x[i] != '_',
        forall|i: int| 0 <= i < y.len() ==> #[trigger] y[i] != '_',
    ensures
        x == y,
{
    let s = a + seq!['_'] + x;
    let t = b + seq!['_'] + y;
    assert(s.len() == a.len() + 1 + x.len());
    assert(t.len() == b.len() + 1 + y.len());
    assert(s[a.len() as int] == '_');
    assert(t[b.len() as int] == '_');
    if a.len() < b.len() {
        assert(t[b.len() as int] == s[b.len() as int]);
        assert(s[b.len() as int] == x[b.len() - a.len() - 1]);
    }
    if b.len() < a.len() {
        assert(t[a.len() as int] == y[a.len() - b.len() - 1]);
    }
    assert(a.len() == b.len());
    assert(x =~= s.skip(a.len() as int + 1));
    assert(y =~= t.skip(b.len() as int + 1));
}

/// Spawns with different numbers have different names, whatever their prefixes and times.
pub proof fn law_spawned_names_differ(
    prefix: Seq<char>,
    other: Seq<char>,
    nanos: nat,
    later: nat,
    seq: nat,
    next: nat,
)
    requires
        seq != next,
    ensures
        spawned_name(prefix, nanos, seq) != spawned_name(other, later, next),
{
    if spawned_name(prefix, nanos, seq) == spawned_name(other, later, next) {
        reveal_strlit("_");
        assert("_"@ =~= seq!['_']);
        text::lemma_digits_read_back(seq);
        text::lemma_digits_read_back(next);
        lemma_tail_is_unique(
            sanitized(prefix) + "_"@ + hexadecimal(nanos),
            sanitized(other) + "_"@ + hexadecimal(later),
            text::digits(seq),
            text::digits(next),
        );
        assert(text::digits(seq) == text::digits(next));
    }
}

/// Two slots of a pool have different databases.
pub proof fn law_slots_have_their_own_database(prefix: Seq<char>, a: nat, b: nat)
    requires
        slot_name(prefix, a) == slot_name(prefix, b),
    ensures
        a == b,
{
    let head = prefix + "_"@;
    assert(slot_name(prefix, a).skip(head.len() as int) =~= text::digits(a));
    assert(slot_name(prefix, b).skip(head.len() as int) =~= text::digits(b));
    text::lemma_digits_read_back(a);
    text::lemma_digits_read_back(b);
}

/// A pool never has more free slots than slots, and giving back what was taken leaves it as
/// it was.
pub proof fn law_slots_come_back(free: Seq<usize>, size: nat)
    requires
        slots_of(free, size),
    ensures
        free.len() <= size,
        free.len() > 0 ==> slots_of(free.drop_last(), size) && !free.drop_last().contains(
            free.last(),
        ) && free.drop_last().push(free.last()) == free,
{
    lemma_slots_are_few(free, size);
    if free.len() > 0 {
        assert(free.drop_last().push(free.last()) =~= free);
        if free.drop_last().contains(free.last()) {
            let i = choose|i: int| 0 <= i < free.len() - 1 && free.drop_last()[i] == free.last();
            assert(free[i] == free[free.len() - 1]);
        }
    }
}

proof fn lemma_slots_are_few(free: Seq<usize>, size: nat)
    requires
        slots_of(free, size),
    ensures
        free.len() <= size,
{
    let slots = free.to_set();
    assert(free.no_duplicates());
    free.unique_seq_to_set();
    let all = vstd::set_lib::set_int_range(0, size as int);
    vstd::set_lib::lemma_int_range(0, size as int);
    let numbers = slots.map(|s: usize| s as int);
    vstd::set_lib::lemma_map_size(slots, numbers, |s: usize| s as int);
    assert(numbers.subset_of(all));
    vstd::set_lib::lemma_len_subset(numbers, all);
}

/// A name keeps the ASCII letters, digits and underscores of its prefix, in order, up to 48 of
/// them; a prefix without any gives `test`.
pub proof fn law_names_keep_the_plain_characters(s: Seq<char>)
    ensures
        kept(s) == s.filter(|c: char| text::is_alnum(c) || c == '_'),
        sanitized(s) == if kept(s).len() == 0 {
            "test"@
        } else if kept(s).len() > 48 {
            kept(s).take(48)
        } else {
            kept(s)
        },
    decreases s.len(),
{
    let plain = |c: char| text::is_alnum(c) || c == '_';
    reveal(Seq::filter);
    if s.len() > 0 {
        law_names_keep_the_plain_characters(s.drop_last());
    } else {
        assert(kept(s) =~= s.filter(plain));
    }
}

/// A spawned database is named after its prefix, the time in hexadecimal and its number; one
/// of a pool after the pool and its slot.
pub proof fn law_names_say_where_they_come_from(prefix: Seq<char>, nanos: nat, n: nat)
    ensures
        spawned_name(prefix, nanos, n) == sanitized(prefix) + "_"@ + hexadecimal(nanos) + "_"@
            + text::decimal(n as int),
        slot_name(prefix, n) == prefix + "_"@ + text::decimal(n as int),
        nanos < 16 ==> hexadecimal(nanos) == seq![text::hex_digit(nanos as int)],
        nanos >= 16 ==> hexadecimal(nanos) == hexadecimal(nanos / 16).push(
            text::hex_digit((nanos % 16) as int),
        ),
{
}

/// A checkout goes from the admin connection to a dropped and then a created database, to its
/// data connection, and through the seed where there is one. A database that was not there to
/// be dropped, or is there already, is no failure; any other failure ends it.
pub proof fn law_checkouts_go_in_order(seeded: bool, e: FailureView, failure: Option<FailureView>)
    ensures
        after_step(CheckoutStep::ConnectAdmin, seeded, None) == Ok::<CheckoutStep, FailureView>(
            CheckoutStep::DropDatabase,
        ),
        after_step(CheckoutStep::DropDatabase, seeded, failure) == Ok::<CheckoutStep, FailureView>(
            CheckoutStep::CreateDatabase,
        ),
        after_step(CheckoutStep::CreateDatabase, seeded, None) == Ok::<CheckoutStep, FailureView>(
            CheckoutStep::ConnectData,
        ),
        e is AlreadyExists ==> after_step(CheckoutStep::CreateDatabase, seeded, Some(e)) == Ok::<
            CheckoutStep,
            FailureView,
        >(CheckoutStep::ConnectData),
        !(e is AlreadyExists) ==> after_step(CheckoutStep::CreateDatabase, seeded, Some(e))
            == Err::<CheckoutStep, FailureView>(e),
        after_step(CheckoutStep::ConnectData, true, None) == Ok::<CheckoutStep, FailureView>(
            CheckoutStep::Seed,
        ),
        after_step(CheckoutStep::ConnectData, false, None) == Ok::<CheckoutStep, FailureView>(
            CheckoutStep::Ready,
        ),
        after_step(CheckoutStep::Seed, seeded, None) == Ok::<CheckoutStep, FailureView>(
            CheckoutStep::Ready,
        ),
        after_step(CheckoutStep::ConnectAdmin, seeded, Some(e)) == Err::<CheckoutStep, FailureView>(
            e,
        ),
        after_step(CheckoutStep::ConnectData, seeded, Some(e)) == Err::<CheckoutStep, FailureView>(
            e,
        ),
        after_step(CheckoutStep::Seed, seeded, Some(e)) == Err::<CheckoutStep, FailureView>(e),
{
}

} // verus!
