//! The flash's clock: what it is set to, and which timing is safe at the highest speed.

use vstd::prelude::*;

verus! {

/// How many words of flash are read for each timing that is tried.
pub const SAMPLE_WORDS: usize = 256;

/// The largest sample delay.
pub const RXDELAY_MAX: u8 = 7;

/// The smallest divisor of the system clock.
pub const TARGET_CLKDIV: u8 = 2;

/// What a divisor field stands for: zero stands for 256.
pub open spec fn divisor_of(clkdiv: u8) -> u32 {
    if clkdiv == 0 {
        256
    } else {
        clkdiv as u32
    }
}

/// How the flash is read.
#[derive(Clone, Copy, Debug, PartialEq, Eq, Structural)]
pub struct XipConfig {
    pub divisor: u32,
    pub clock_hz: u32,
    /// No smaller divisor is possible.
    pub at_max_clk: bool,
    /// Every access starts with a command.
    pub has_cmd_prefix: bool,
}

/// How the flash is read, going by the fields of its registers and the system clock.
pub open spec fn config_of(clkdiv: u8, sys_hz: u32, prefix_len: u8) -> XipConfig {
    XipConfig {
        divisor: divisor_of(clkdiv),
        clock_hz: (sys_hz / divisor_of(clkdiv)) as u32,
        at_max_clk: divisor_of(clkdiv) <= TARGET_CLKDIV,
        has_cmd_prefix: prefix_len == 1,
    }
}

/// How the flash is read, from the fields of its registers and the system clock.
pub fn flash_xip_config(clkdiv: u8, sys_hz: u32, prefix_len: u8) -> (config: XipConfig)
    ensures
        config == (XipConfig {
            divisor: divisor_of(clkdiv),
            clock_hz: (sys_hz / divisor_of(clkdiv)) as u32,
            at_max_clk: divisor_of(clkdiv) <= TARGET_CLKDIV,
            has_cmd_prefix: prefix_len == 1,
        }),
        config == config_of(clkdiv, sys_hz, prefix_len),
{
    let divisor: u32 = if clkdiv == 0 {
        256
    } else {
        clkdiv as u32
    };
    XipConfig {
        divisor,
        clock_hz: sys_hz / divisor,
        at_max_clk: divisor <= TARGET_CLKDIV as u32,
        has_cmd_prefix: prefix_len == 1,
    }
}

/// The clock can be made faster.
pub fn can_speed_up(clkdiv: u8) -> (faster: bool)
    ensures
        faster == (divisor_of(clkdiv) > TARGET_CLKDIV),
{
    clkdiv == 0 || clkdiv > TARGET_CLKDIV
}

/// Whether the words that were read are the expected ones.
pub fn validate(read: &[u32], golden: &[u32]) -> (ok: bool)
    requires
        read@.len() == golden@.len(),
    ensures
        ok == (read@ == golden@),
{
    let mut i: usize = 0;
    while i < read.len()
        invariant
            i <= read@.len(),
            read@.len() == golden@.len(),
            forall|j: int| 0 <= j < i ==> read@[j] == golden@[j],
        decreases read@.len() - i,
    {
        if read[i] != golden[i] {
            return false;
        }
        i += 1;
    }
    assert(read@ =~= golden@);
    true
}

/// All of `len` delays from `start` on work.
pub open spec fn is_run(pass: Seq<bool>, start: int, len: int) -> bool {
    &&& 0 <= start
    &&& 0 < len
    &&& start + len <= pass.len()
    &&& forall|i: int| start <= i < start + len ==> #[trigger] pass[i]
}

/// `(start, len)` is the longest run of delays that work, the first one if several are as long.
pub open spec fn is_best_run(pass: Seq<bool>, start: int, len: int) -> bool {
    &&& is_run(pass, start, len)
    &&& forall|s: int, l: int| #[trigger]
        is_run(pass, s, l) ==> l < len || (l == len && start <= s)
}

/// `c` is the middle of the longest run of delays that work.
pub open spec fn is_choice(pass: Seq<bool>, c: int) -> bool {
    exists|start: int, len: int| #[trigger]
        is_best_run(pass, start, len) && c == start + (len - 1) / 2
}

/// What trying every delay has shown.
#[derive(Clone, Copy, Debug, PartialEq, Eq, Structural)]
pub struct SweepResult {
    /// Bit `i` is set if delay `i` works.
    pub pass_bitmap: u8,
    /// The delay to use.
    pub chosen: Option<u8>,
}

/// Chooses the delay to use: the middle of the longest run of delays that work, where small
/// changes do least harm. None works if none was seen to work.
pub fn sweep_rxdelay(pass: &[bool; 8]) -> (result: SweepResult)
    ensures
        forall|i: u8|
            0 <= i < 8 ==> ((#[trigger] (result.pass_bitmap >> i)) & 1 == 1) == pass@[i as int],
        result.chosen is None <==> forall|i: int| 0 <= i < 8 ==> !#[trigger] pass@[i],
        result.chosen matches Some(c) ==> exists|start: int, len: int| #[trigger]
            is_best_run(pass@, start, len) && c == start + (len - 1) / 2,
        result.chosen matches Some(c) ==> is_choice(pass@, c as int),
{
    let mut pass_bitmap: u8 = 0;
    let mut best_len: u8 = 0;
    let mut best_start: u8 = 0;
    let mut run_start: u8 = 0;
    let mut run_len: u8 = 0;
    let mut i: u8 = 0;
    assert(forall|k: u8| 0 <= k < 8 ==> #[trigger] (0u8 >> k) & 1 == 0) by (bit_vector);
    while i <= RXDELAY_MAX
        invariant
            i <= 8,
            run_len <= i,
            run_start <= 8,
            best_len <= 8,
            best_start <= 8,
            run_len > 0 ==> run_start + run_len == i && is_run(
                pass@,
                run_start as int,
                run_len as int,
            ) && (run_start == 0 || !pass@[run_start - 1]),
            run_len == 0 ==> i == 0 || !pass@[i - 1],
            best_len == 0 ==> forall|k: int| 0 <= k < i ==> !#[trigger] pass@[k],
            best_len > 0 ==> is_run(pass@, best_start as int, best_len as int) && best_start
                + best_len <= i,
            forall|s: int, l: int| #[trigger]
                is_run(pass@, s, l) && s + l <= i ==> l < best_len || (l == best_len && best_start
                    <= s),
            forall|k: u8|
                0 <= k < 8 ==> ((#[trigger] (pass_bitmap >> k)) & 1 == 1) == (k < i
                    && pass@[k as int]),
        decreases 8 - i,
    {
        let ghost old_best = best_len;
        let ghost old_start = best_start;
        if pass[i as usize] {
            let ghost before = pass_bitmap;
            pass_bitmap = pass_bitmap | (1u8 << i);
            assert(forall|k: u8|
                0 <= k < 8 ==> ((#[trigger] ((before | (1u8 << i)) >> k)) & 1 == 1) == (k == i || (
                before >> k) & 1 == 1)) by (bit_vector)
                requires
                    i < 8,
            ;
            if run_len == 0 {
                run_start = i;
            }
            run_len += 1;
            assert(is_run(pass@, run_start as int, run_len as int));
            assert forall|s: int, l: int| #[trigger]
                is_run(pass@, s, l) && s + l == i + 1 implies s >= run_start && l <= run_len by {
                if s < run_start {
                    assert(pass@[run_start - 1]);
                }
            }
            if run_len > best_len {
                best_len = run_len;
                best_start = run_start;
            }
        } else {
            run_len = 0;
            assert forall|s: int, l: int| #[trigger]
                is_run(pass@, s, l) implies s + l != i + 1 by {
                if s + l == i + 1 {
                    assert(pass@[i as int]);
                }
            }
        }
        i += 1;
    }
    if best_len == 0 {
        return SweepResult { pass_bitmap, chosen: None };
    }
    assert(is_best_run(pass@, best_start as int, best_len as int));
    assert(pass@[best_start as int]);
    SweepResult { pass_bitmap, chosen: Some(best_start + (best_len - 1) / 2) }
}

/// The delay that is kept once the chosen one was tried again.
pub open spec fn kept_of(chosen: Option<u8>, still_works: bool) -> Option<u8> {
    if still_works {
        chosen
    } else {
        None
    }
}

/// What to do once the chosen delay, if there is one, was tried again: keep it if it still works,
/// and otherwise go back to the timing that the device started with.
pub fn keep_timing(chosen: Option<u8>, still_works: bool) -> (kept: Option<u8>)
    ensures
        kept == if still_works {
            chosen
        } else {
            None
        },
        kept == kept_of(chosen, still_works),
{
    if still_works {
        chosen
    } else {
        None
    }
}

/// The timing register that the device goes on with: the highest speed with the delay that is kept,
/// or the register as it was.
pub fn final_timing(before: u32, kept: Option<u8>) -> (word: u32)
    ensures
        match kept {
            Some(delay) => is_retimed(before, word, delay),
            None => word == before,
        },
{
    match kept {
        Some(delay) => retimed(before, delay),
        None => before,
    }
}

/// `word` is the timing register `before` with the highest speed and the sample delay `delay`: the
/// divisor is its lowest eight bits and the delay the three above them; all other bits are kept.
pub open spec fn is_retimed(before: u32, word: u32, delay: u8) -> bool {
    &&& word % 0x100 == TARGET_CLKDIV
    &&& word / 0x100 % 8 == delay % 8
    &&& word / 0x800 == before / 0x800
}

/// The timing register with the highest speed and the sample delay `delay`.
pub fn retimed(before: u32, delay: u8) -> (word: u32)
    ensures
        is_retimed(before, word, delay),
{
    before - before % 0x800 + (delay % 8) as u32 * 0x100 + TARGET_CLKDIV as u32
}

/// The timing register with the highest speed and a delay is that word alone.
pub proof fn retimed_is_one_word(before: u32, a: u32, b: u32, delay: u8)
    requires
        is_retimed(before, a, delay),
        is_retimed(before, b, delay),
    ensures
        a == b,
{
}

/// The chosen delay is one that was seen to work.
pub proof fn chosen_delay_works(pass: Seq<bool>, start: int, len: int)
    requires
        is_best_run(pass, start, len),
    ensures
        pass[start + (len - 1) / 2],
{
}

/// Every delay from `a` to `b` works.
pub open spec fn works_between(pass: Seq<bool>, a: int, b: int) -> bool {
    0 <= a <= b < pass.len() && forall|i: int| a <= i <= b ==> #[trigger] pass[i]
}

/// The chosen delay is the middle of delays that work, the lower one of two middles; no other row
/// of delays that work is longer, and none that is as long comes before.
pub proof fn choice_is_the_safest(pass: Seq<bool>, c: int) -> (row: (int, int))
    requires
        is_choice(pass, c),
    ensures
        works_between(pass, row.0, row.1),
        row.0 <= c <= row.1,
        c - row.0 == row.1 - c || c - row.0 == row.1 - c - 1,
        pass[c],
        forall|a: int, b: int| #[trigger]
            works_between(pass, a, b) ==> b - a < row.1 - row.0 || (b - a == row.1 - row.0 && row.0
                <= a),
{
    let (start, len) = choose|start: int, len: int| #[trigger]
        is_best_run(pass, start, len) && c == start + (len - 1) / 2;
    assert forall|a: int, b: int| #[trigger] works_between(pass, a, b) implies b - a < len - 1 || (b
        - a == len - 1 && start <= a) by {
        assert(is_run(pass, a, b - a + 1));
    }
    (start, start + len - 1)
}

/// A delay is kept only if it was chosen and works when it is tried again; then exactly that one.
pub proof fn kept_delay_works_twice(chosen: Option<u8>, still_works: bool)
    ensures
        kept_of(chosen, still_works) is Some <==> chosen is Some && still_works,
        kept_of(chosen, still_works) is Some ==> kept_of(chosen, still_works) == chosen,
{
}

/// The timing register with the highest speed: its lowest eight bits are 2, the next three are the
/// delay, and the other twenty-one are as they were.
pub proof fn timing_has_its_fields(before: u32, word: u32, delay: u8)
    requires
        is_retimed(before, word, delay),
        delay < 8,
    ensures
        word == before - before % 2048 + 256 * delay + 2,
{
}

/// A divisor field from 1 on stands for itself, and zero for 256.
pub proof fn divisors_are_read(clkdiv: u8)
    ensures
        clkdiv > 0 ==> divisor_of(clkdiv) == clkdiv,
        divisor_of(0) == 256,
        divisor_of(clkdiv) > 2 <==> clkdiv != 1 && clkdiv != 2,
{
}

/// The flash's clock is the system clock over the divisor, rounded down; it is at its highest
/// with a divisor of at most two, and a prefix is sent exactly if its length field is one.
pub proof fn clock_is_divided(clkdiv: u8, sys_hz: u32, prefix_len: u8)
    ensures
        ({
            let c = config_of(clkdiv, sys_hz, prefix_len);
            &&& c.divisor == if clkdiv == 0 {
                256
            } else {
                clkdiv as u32
            }
            &&& c.clock_hz * c.divisor <= sys_hz < (c.clock_hz + 1) * c.divisor
            &&& c.at_max_clk <==> clkdiv == 1 || clkdiv == 2
            &&& c.has_cmd_prefix <==> prefix_len == 1
        }),
{
    let d = divisor_of(clkdiv) as int;
    let q = sys_hz as int / d;
    vstd::arithmetic::div_mod::lemma_fundamental_div_mod(sys_hz as int, d);
    vstd::arithmetic::div_mod::lemma_mod_bound(sys_hz as int, d);
    assert(d * q == q * d) by (nonlinear_arith);
    assert((q + 1) * d == q * d + d) by (nonlinear_arith);
    assert(0 <= q <= sys_hz) by (nonlinear_arith)
        requires
            q * d <= sys_hz,
            d >= 1,
            sys_hz < q * d + d,
            sys_hz >= 0,
    ;
}

} // verus!
