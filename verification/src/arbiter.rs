//! The coordinator's state: the program that it embeds, the workers that have
//! registered, and the place of the worker that is served next.
//!
//! Workers are handed out in turn. The cursor is the place of the next one:
//! it is 0 while no worker is registered and below their number otherwise.

use crate::error::NoDevicesError;
use crate::internals::{clone_texts, texts, Schema, SchemaView};
use crate::program::{Program, ProgramId};
use vstd::arithmetic::div_mod::{
    lemma_add_mod_noop, lemma_fundamental_div_mod, lemma_fundamental_div_mod_converse,
    lemma_mod_bound, lemma_mod_multiples_vanish, lemma_mod_self_0, lemma_small_mod,
};
use vstd::prelude::*;

verus! {

/// The coordinator's state.
pub struct StateAccessor {
    devices: Vec<String>,
    next_device_id: usize,
    program: Program,
}

/// Whether `cursor` is a place in a sequence of `len` workers, or 0 where
/// there is none.
pub open spec fn cursor_in_range(cursor: int, len: int) -> bool {
    if len == 0 {
        cursor == 0
    } else {
        0 <= cursor < len
    }
}

/// The place of the first text in `v` that is `x`.
pub fn find_text(v: &Vec<String>, x: &String) -> (r: Option<usize>)
    ensures
        match r {
            Some(i) => texts(v@).index_of_first(x@) == Some(i as int) && i < v.len(),
            None => texts(v@).index_of_first(x@) is None,
        },
{
    let ghost all = texts(v@);
    let mut i: usize = 0;
    while i < v.len()
        invariant
            i <= v.len(),
            all == texts(v@),
            forall|j: int| 0 <= j < i ==> all[j] != x@,
        decreases v.len() - i,
    {
        if v[i] == *x {
            proof {
                assert(all[i as int] == x@);
                assert(all.contains(x@));
                all.index_of_first_ensures(x@);
            }
            return Some(i);
        }
        i = i + 1;
    }
    proof {
        assert(!all.contains(x@));
        all.index_of_first_ensures(x@);
    }
    None
}

impl StateAccessor {
    /// The addresses of the registered workers, in the order of their
    /// registration.
    pub closed spec fn devices(&self) -> Seq<Seq<char>> {
        texts(self.devices@)
    }

    /// The place of the worker that is handed out next.
    pub closed spec fn cursor(&self) -> int {
        self.next_device_id as int
    }

    /// Whether the cursor stands where it may: every state that this type's
    /// functions build is well formed, and they keep it so.
    pub open spec fn wf(&self) -> bool {
        cursor_in_range(self.cursor(), self.devices().len() as int)
    }

    /// The embedded program.
    pub closed spec fn program(&self) -> (SchemaView, Seq<u8>) {
        self.program@
    }

    /// The state of a coordinator that embeds `program` and knows no worker.
    pub fn new(program: Program) -> (state: Self)
        ensures
            state.devices().len() == 0,
            state.cursor() == 0,
            state.program() == program@,
            state.wf(),
    {
        StateAccessor { devices: Vec::new(), next_device_id: 0, program }
    }

    /// Registers a worker behind those that are registered. An address may
    /// be registered more than once.
    pub fn add_device(&mut self, url: String)
        requires
            old(self).wf(),
        ensures
            final(self).devices() == old(self).devices().push(url@),
            final(self).cursor() == old(self).cursor(),
            final(self).program() == old(self).program(),
            final(self).wf(),
    {
        self.devices.push(url);
        assert(texts(self.devices@) =~= texts(old(self).devices@).push(url@));
    }

    /// The code of the embedded program.
    pub fn get_program_code(&self) -> (code: Vec<u8>)
        ensures
            code@ == self.program().1,
    {
        self.program.wasm.clone()
    }

    /// The identifier of the embedded program: the name in its schema.
    pub fn get_program_id(&self) -> (id: ProgramId)
        ensures
            id@ == self.program().0.program,
    {
        ProgramId::new(self.program.schema.program.clone())
    }

    /// Hands out the worker at the cursor and moves the cursor to the next
    /// one, behind the last to the first. Without a worker there is nothing
    /// to hand out, and nothing changes.
    pub fn get_next_device(&mut self) -> (r: Result<String, NoDevicesError>)
        requires
            old(self).wf(),
        ensures
            final(self).devices() == old(self).devices(),
            final(self).program() == old(self).program(),
            final(self).wf(),
            match r {
                Ok(url) => old(self).devices().len() > 0 && url@ == old(self).devices()[old(
                    self,
                ).cursor()] && final(self).cursor() == (old(self).cursor() + 1) % (old(
                    self,
                ).devices().len() as int),
                Err(_) => old(self).devices().len() == 0 && final(self).cursor() == old(
                    self,
                ).cursor(),
            },
    {
        let len: usize = self.devices.len();
        if len == 0 {
            return Err(NoDevicesError);
        }
        let id: usize = self.next_device_id;
        let url = self.devices[id].clone();
        proof {
            if id + 1 == len {
                lemma_mod_self_0(len as int);
            } else {
                lemma_small_mod((id + 1) as nat, len as nat);
            }
        }
        self.next_device_id = if id + 1 == len {
            0
        } else {
            id + 1
        };
        Ok(url)
    }

    /// The addresses of the registered workers, in the order of their
    /// registration.
    pub fn get_devices(&self) -> (urls: Vec<String>)
        ensures
            texts(urls@) == self.devices(),
    {
        clone_texts(&self.devices)
    }

    /// Takes the first worker with the address `url` out of the sequence;
    /// without such a worker nothing changes. A cursor that no longer points
    /// at a worker goes back to the first one.
    pub fn remove_device(&mut self, url: String)
        requires
            old(self).wf(),
        ensures
            final(self).devices() == old(self).devices().remove_value(url@),
            final(self).program() == old(self).program(),
            final(self).cursor() == if old(self).cursor() < final(self).devices().len() {
                old(self).cursor()
            } else {
                0
            },
            final(self).wf(),
    {
        match find_text(&self.devices, &url) {
            None => {},
            Some(i) => {
                if self.next_device_id + 1 >= self.devices.len() {
                    self.next_device_id = 0;
                }
                self.devices.remove(i);
                assert(texts(self.devices@) =~= texts(old(self).devices@).remove(i as int));
            },
        }
    }

    /// What the embedded program tells of itself.
    pub fn get_schema(&self) -> (schema: Schema)
        ensures
            schema@ == self.program().0,
    {
        self.program.schema.clone()
    }
}

/// The cursor after `k` workers were handed out, one after the other, where
/// it stood at `start` among `len` workers and none was added or taken out.
pub open spec fn cursor_after(start: int, len: int, k: nat) -> int
    decreases k,
{
    if k == 0 {
        start
    } else {
        (cursor_after(start, len, (k - 1) as nat) + 1) % len
    }
}

/// How often the worker at the place `i` is handed out in `n` turns that
/// begin with the cursor at `start`, among `len` workers.
pub open spec fn visits(start: int, len: int, n: nat, i: int) -> nat
    decreases n,
{
    if n == 0 {
        0
    } else {
        let before = visits(start, len, (n - 1) as nat, i);
        if cursor_after(start, len, (n - 1) as nat) == i {
            before + 1
        } else {
            before
        }
    }
}

/// The number of turns after which the worker at `i` is handed out first.
pub open spec fn turns_until(start: int, len: int, i: int) -> int {
    if i >= start {
        i - start
    } else {
        i - start + len
    }
}

/// After `k` turns the cursor has moved on by `k` places, around the end.
pub proof fn lemma_cursor_after(start: int, len: int, k: nat)
    requires
        0 <= start < len,
    ensures
        cursor_after(start, len, k) == (start + k) % len,
        0 <= cursor_after(start, len, k) < len,
    decreases k,
{
    lemma_mod_bound(start + k, len);
    if k == 0 {
        lemma_small_mod(start as nat, len as nat);
    } else {
        lemma_cursor_after(start, len, (k - 1) as nat);
        let x = start + k - 1;
        lemma_add_mod_noop(x, 1, len);
        if len == 1 {
            lemma_mod_bound(1, len);
            lemma_mod_bound(x % len + 1, len);
        } else {
            lemma_small_mod(1, len as nat);
        }
    }
}

/// The worker at `i` has its turn when the number of turns before it leaves
/// the rest `turns_until(start, len, i)`.
proof fn lemma_turn(start: int, len: int, n: nat, i: int)
    requires
        0 <= start < len,
        0 <= i < len,
    ensures
        ((start + n) % len == i) <==> (n % (len as nat) == turns_until(start, len, i)),
{
    let q = n as int / len;
    let r = n as int % len;
    lemma_fundamental_div_mod(n as int, len);
    lemma_mod_bound(n as int, len);
    lemma_mod_multiples_vanish(q, start + r, len);
    assert(start + n == len * q + (start + r));
    if start + r < len {
        lemma_small_mod((start + r) as nat, len as nat);
    } else {
        lemma_fundamental_div_mod_converse(start + r, len, 1, start + r - len);
    }
}

/// The number of visits in `n` turns: one in every full round, and one more
/// if the worker's turn comes in the round that was begun.
proof fn lemma_visits(start: int, len: int, n: nat, i: int)
    requires
        0 <= start < len,
        0 <= i < len,
    ensures
        visits(start, len, n, i) == n as int / len + if turns_until(start, len, i) < n as int
            % len {
            1int
        } else {
            0int
        },
    decreases n,
{
    lemma_fundamental_div_mod(n as int, len);
    lemma_mod_bound(n as int, len);
    if n == 0 {
        lemma_fundamental_div_mod_converse(0, len, 0, 0);
    } else {
        let m = (n - 1) as nat;
        lemma_visits(start, len, m, i);
        lemma_cursor_after(start, len, m);
        lemma_turn(start, len, m, i);
        let q = m as int / len;
        let r = m as int % len;
        lemma_fundamental_div_mod(m as int, len);
        lemma_mod_bound(m as int, len);
        assert(m as int == len * q + r);
        if r + 1 < len {
            assert(n as int == q * len + (r + 1)) by (nonlinear_arith)
                requires
                    n as int == m as int + 1,
                    m as int == len * q + r,
            ;
            lemma_fundamental_div_mod_converse(n as int, len, q, r + 1);
        } else {
            assert(n as int == (q + 1) * len + 0) by (nonlinear_arith)
                requires
                    n as int == m as int + 1,
                    m as int == len * q + r,
                    r + 1 == len,
            ;
            lemma_fundamental_div_mod_converse(n as int, len, q + 1, 0);
        }
    }
}

/// Workers are handed out in turn: in `n` turns, among `len` workers of which
/// none was added or taken out, each is handed out `n / len` times, or once
/// more where `n` is no multiple of `len`. In `len` turns each is handed out
/// once, wherever the cursor stood.
pub proof fn lemma_round_robin_is_fair(start: int, len: int, n: nat, i: int)
    requires
        cursor_in_range(start, len),
        0 <= i < len,
    ensures
        n as int / len <= visits(start, len, n, i) <= n as int / len + 1,
        n as int % len == 0 ==> visits(start, len, n, i) == n as int / len,
        visits(start, len, len as nat, i) == 1,
{
    lemma_visits(start, len, n, i);
    lemma_mod_bound(n as int, len);
    lemma_visits(start, len, len as nat, i);
    lemma_fundamental_div_mod_converse(len, len, 1, 0);
}

} // verus!
