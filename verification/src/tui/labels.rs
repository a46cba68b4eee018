//! Short texts the screens are made of.

use vstd::prelude::*;
use crate::config::RawMode;
use crate::events::FilePhase;
use crate::text;

verus! {

// ---------------------------------------------------------------------------
// Sizes
// ---------------------------------------------------------------------------

/// `n / d` rounded to the nearest integer, a half to the even one.
pub open spec fn rounded(n: nat, d: nat) -> nat {
    let q = n / d;
    let r = n % d;
    if 2 * r < d || (2 * r == d && q % 2 == 0) {
        q
    } else {
        q + 1
    }
}

/// The distance between neighbouring double-precision numbers at `b`, and 1 where the
/// integers are closer than that.
pub open spec fn spacing(b: nat) -> nat
    decreases b,
{
    if b < 0x20_0000_0000_0000 {
        1
    } else {
        2 * spacing(b / 2)
    }
}

/// The double-precision number nearest to `b`.
pub open spec fn as_double(b: nat) -> nat {
    rounded(b, spacing(b)) * spacing(b)
}

/// How many tenths of `unit` the double nearest to `b` makes, rounded.
pub open spec fn tenths(b: nat, unit: nat) -> nat {
    rounded(10 * as_double(b), unit)
}

/// A number of tenths, in decimal with one place.
pub open spec fn one_place(t: nat) -> Seq<char> {
    text::decimal(t / 10) + "."@ + text::decimal(t % 10)
}

/// A number of bytes as people read it.
pub open spec fn human_size(b: nat) -> Seq<char> {
    if b >= 0x4000_0000 {
        one_place(tenths(b, 0x4000_0000)) + " GiB"@
    } else if b >= 0x10_0000 {
        one_place(tenths(b, 0x10_0000)) + " MiB"@
    } else if b >= 0x400 {
        one_place(tenths(b, 0x400)) + " KiB"@
    } else {
        text::decimal(b) + " B"@
    }
}

fn round_div(n: u128, d: u128) -> (r: u128)
    requires
        0 < d < 0x1_0000_0000_0000_0000,
        n < 0x1000_0000_0000_0000_0000,
    ensures
        r == rounded(n as nat, d as nat),
        r <= n / d + 1,
{
    let q: u128 = n / d;
    let rest: u128 = n % d;
    proof {
        assert(q <= n) by (nonlinear_arith)
            requires
                d >= 1,
                q == n / d,
                n >= 0,
        ;
    }
    if 2 * rest < d || (2 * rest == d && q % 2 == 0) {
        q
    } else {
        q + 1
    }
}

fn double_spacing(b: u64) -> (r: u64)
    ensures
        r == spacing(b as nat),
        1 <= r < 0x1000,
        r <= 1 || 0x10_0000_0000_0000 * r <= b,
    decreases b,
{
    if b < 0x20_0000_0000_0000 {
        1
    } else {
        let half: u64 = double_spacing(b / 2);
        proof {
            if half > 1 {
                assert(0x10_0000_0000_0000 * half <= b / 2);
            }
        }
        2 * half
    }
}

fn in_tenths(b: u64, unit: u64) -> (r: u64)
    requires
        unit == 0x400 || unit == 0x10_0000 || unit == 0x4000_0000,
    ensures
        r == tenths(b as nat, unit as nat),
{
    let step: u64 = double_spacing(b);
    let steps: u128 = round_div(b as u128, step as u128);
    proof {
        assert(steps * step <= b + step) by (nonlinear_arith)
            requires
                steps <= b as int / step as int + 1,
                step >= 1,
                b >= 0,
        ;
    }
    let near: u128 = steps * (step as u128);
    let t: u128 = round_div(10 * near, unit as u128);
    t as u64
}

/// A number of bytes as people read it: plain below one KiB, else with one place in the
/// largest of KiB, MiB and GiB that it reaches.
pub fn human_bytes(b: u64) -> (r: String)
    ensures
        r@ == human_size(b as nat),
{
    if b >= 0x4000_0000 {
        text::with(place_text(in_tenths(b, 0x4000_0000)), " GiB")
    } else if b >= 0x10_0000 {
        text::with(place_text(in_tenths(b, 0x10_0000)), " MiB")
    } else if b >= 0x400 {
        text::with(place_text(in_tenths(b, 0x400)), " KiB")
    } else {
        text::with(text::decimal_text(b), " B")
    }
}

fn place_text(t: u64) -> (r: String)
    ensures
        r@ == one_place(t as nat),
{
    text::with(text::with(text::decimal_text(t / 10), "."), &text::decimal_text(t % 10))
}

// ---------------------------------------------------------------------------
// Labels
// ---------------------------------------------------------------------------

/// `s`, or its beginning and an ellipsis where it is longer than `max`.
pub open spec fn trimmed_label(s: Seq<char>, max: nat) -> Seq<char> {
    if s.len() <= max {
        s
    } else if max == 0 {
        seq!['…']
    } else {
        s.take(max - 1).push('…')
    }
}

/// `s`, or its beginning and an ellipsis where it is longer than `max` characters.
pub fn trim_label(s: &str, max: usize) -> (r: String)
    ensures
        r@ == trimmed_label(s@, max as nat),
{
    let chars: Vec<char> = text::to_chars(s);
    if chars.len() <= max {
        return text::copy_str(s);
    }
    let keep: usize = if max == 0 { 0 } else { max - 1 };
    let mut out = text::from_chars(&chars, 0, keep);
    out.push('…');
    proof {
        assert(out@ =~= trimmed_label(s@, max as nat));
    }
    out
}

/// What a lane says of the phase of its file.
pub open spec fn phase_label(phase: Option<FilePhase>) -> Seq<char> {
    match phase {
        Some(FilePhase::Copying) => "copying"@,
        Some(FilePhase::Verifying) => "verifying"@,
        Some(FilePhase::ReadingMetadata) => "reading metadata"@,
        Some(FilePhase::ResolvingDestination) => "resolving destination"@,
        Some(FilePhase::Finalizing) => "finalizing"@,
        None => "starting"@,
    }
}

/// What a lane says of the phase of its file.
pub fn file_phase_label(phase: Option<FilePhase>) -> (r: &'static str)
    ensures
        r@ == phase_label(phase),
{
    match phase {
        Some(FilePhase::Copying) => "copying",
        Some(FilePhase::Verifying) => "verifying",
        Some(FilePhase::ReadingMetadata) => "reading metadata",
        Some(FilePhase::ResolvingDestination) => "resolving destination",
        Some(FilePhase::Finalizing) => "finalizing",
        None => "starting",
    }
}

/// The name of a RAW setting.
pub open spec fn mode_label(mode: RawMode) -> Seq<char> {
    match mode {
        RawMode::All => "All (RAW + JPEG)"@,
        RawMode::RawOnly => "RAW only"@,
        RawMode::NonRawOnly => "Non-RAW only"@,
    }
}

/// The name of a RAW setting.
pub fn raw_mode_label(mode: RawMode) -> (r: &'static str)
    ensures
        r@ == mode_label(mode),
{
    match mode {
        RawMode::All => "All (RAW + JPEG)",
        RawMode::RawOnly => "RAW only",
        RawMode::NonRawOnly => "Non-RAW only",
    }
}

/// The setting to the left of `mode`.
pub open spec fn mode_before(mode: RawMode) -> RawMode {
    match mode {
        RawMode::All => RawMode::NonRawOnly,
        RawMode::RawOnly => RawMode::All,
        RawMode::NonRawOnly => RawMode::RawOnly,
    }
}

/// The setting to the right of `mode`.
pub open spec fn mode_after(mode: RawMode) -> RawMode {
    match mode {
        RawMode::All => RawMode::RawOnly,
        RawMode::RawOnly => RawMode::NonRawOnly,
        RawMode::NonRawOnly => RawMode::All,
    }
}

/// The setting to the left of `mode`.
pub fn previous_raw_mode(mode: RawMode) -> (r: RawMode)
    ensures
        r == mode_before(mode),
{
    match mode {
        RawMode::All => RawMode::NonRawOnly,
        RawMode::RawOnly => RawMode::All,
        RawMode::NonRawOnly => RawMode::RawOnly,
    }
}

/// The setting to the right of `mode`.
pub fn next_raw_mode(mode: RawMode) -> (r: RawMode)
    ensures
        r == mode_after(mode),
{
    match mode {
        RawMode::All => RawMode::RawOnly,
        RawMode::RawOnly => RawMode::NonRawOnly,
        RawMode::NonRawOnly => RawMode::All,
    }
}

/// Left and right undo each other, and three steps to the right pass every setting.
pub proof fn law_raw_modes_form_a_ring(mode: RawMode)
    ensures
        mode_before(mode_after(mode)) == mode,
        mode_after(mode_before(mode)) == mode,
        mode_after(mode) != mode,
        mode_after(mode_after(mode)) != mode,
        mode_after(mode_after(mode_after(mode))) == mode,
{
}

// ---------------------------------------------------------------------------
// The log
// ---------------------------------------------------------------------------

/// How many lines the log keeps.
pub const LOG_LINES: usize = 500;

/// The log with one more line, its oldest lines dropped where it grew too long.
pub open spec fn logged(log: Seq<Seq<char>>, line: Seq<char>) -> Seq<Seq<char>> {
    let all = log.push(line);
    if all.len() > LOG_LINES {
        all.skip(all.len() - LOG_LINES)
    } else {
        all
    }
}

/// Adds a line to the log and drops the oldest lines where it grew too long.
pub fn push_log(buf: &mut Vec<String>, s: String)
    ensures
        text::texts(final(buf)@) == logged(text::texts(old(buf)@), s@),
{
    let ghost before = text::texts(buf@);
    buf.push(s);
    proof {
        assert(text::texts(buf@) =~= before.push(s@));
    }
    if buf.len() > LOG_LINES {
        let excess: usize = buf.len() - LOG_LINES;
        let ghost all = text::texts(buf@);
        let mut kept: Vec<String> = buf.split_off(excess);
        proof {
            assert(text::texts(kept@) =~= all.skip(excess as int));
        }
        std::mem::swap(&mut kept, buf);
    }
}

/// However much is logged, the log stays within its limit and ends with what was logged last.
pub proof fn law_log_is_bounded(log: Seq<Seq<char>>, line: Seq<char>)
    ensures
        logged(log, line).len() <= LOG_LINES,
        logged(log, line).last() == line,
        log.len() < LOG_LINES ==> logged(log, line) == log.push(line),
        log.len() == LOG_LINES ==> logged(log, line) == log.skip(1).push(line),
{
    if log.len() == LOG_LINES {
        assert(log.push(line).skip(1) =~= log.skip(1).push(line));
    }
}

// ---------------------------------------------------------------------------
// Laws of sizes and labels
// ---------------------------------------------------------------------------

proof fn lemma_rounded_is(n: nat, d: nat, t: nat)
    requires
        d > 0,
        2 * (t * d) < 2 * n + d,
        2 * n < 2 * (t * d) + d,
    ensures
        rounded(n, d) == t,
{
    let q = n / d;
    let r = n % d;
    assert(n == q * d + r && 0 <= r < d) by (nonlinear_arith)
        requires
            d > 0,
            q == n / d,
            r == n % d,
    ;
    assert(t == q || t == q + 1) by (nonlinear_arith)
        requires
            d > 0,
            n == q * d + r,
            0 <= r < d,
            2 * (t * d) < 2 * n + d,
            2 * n < 2 * (t * d) + d,
    ;
    assert((q + 1) * d == q * d + d) by (nonlinear_arith);
}

/// Sizes are shown in the largest unit that they reach, with the nearest tenth: whatever number
/// of tenths lies less than half a tenth from a size is shown for it. Below one KiB the bytes
/// themselves are shown.
pub proof fn law_sizes_show_the_nearest_tenth(b: nat, t: nat)
    requires
        b < 0x20_0000_0000_0000,
    ensures
        b < 1024 ==> human_size(b) == text::decimal(b) + " B"@,
        1024 <= b < 1024 * 1024 && 2 * (t * 1024) < 20 * b + 1024 && 20 * b < 2 * (t * 1024) + 1024
            ==> human_size(b) == text::decimal(t / 10) + "."@ + text::decimal(t % 10) + " KiB"@,
        1024 * 1024 <= b < 1024 * 1024 * 1024 && 2 * (t * 0x10_0000) < 20 * b + 0x10_0000 && 20 * b
            < 2 * (t * 0x10_0000) + 0x10_0000 ==> human_size(b) == text::decimal(t / 10) + "."@
            + text::decimal(t % 10) + " MiB"@,
        1024 * 1024 * 1024 <= b && 2 * (t * 0x4000_0000) < 20 * b + 0x4000_0000 && 20 * b < 2 * (t
            * 0x4000_0000) + 0x4000_0000 ==> human_size(b) == text::decimal(t / 10) + "."@
            + text::decimal(t % 10) + " GiB"@,
{
    assert(spacing(b) == 1);
    lemma_rounded_is(b, 1, b);
    assert(as_double(b) == b);
    if 2 * (t * 1024) < 20 * b + 1024 && 20 * b < 2 * (t * 1024) + 1024 {
        lemma_rounded_is(10 * b, 1024, t);
    }
    if 2 * (t * 0x10_0000) < 20 * b + 0x10_0000 && 20 * b < 2 * (t * 0x10_0000) + 0x10_0000 {
        lemma_rounded_is(10 * b, 0x10_0000, t);
    }
    if 2 * (t * 0x4000_0000) < 20 * b + 0x4000_0000 && 20 * b < 2 * (t * 0x4000_0000) + 0x4000_0000 {
        lemma_rounded_is(10 * b, 0x4000_0000, t);
    }
}

/// A label that fits is shown whole; a longer one is shown from its beginning, as long as there
/// is room, and ends in an ellipsis.
pub proof fn law_labels_fit(s: Seq<char>, max: nat)
    requires
        max > 0,
    ensures
        trimmed_label(s, max).len() <= max,
        s.len() <= max ==> trimmed_label(s, max) == s,
        s.len() > max ==> trimmed_label(s, max).len() == max && trimmed_label(s, max).last() == '…'
            && trimmed_label(s, max).drop_last() == s.take(max - 1),
{
    if s.len() > max {
        assert(trimmed_label(s, max).drop_last() =~= s.take(max - 1));
    }
}

/// The settings for raw images go round from all over raw to the others.
pub proof fn law_raw_modes_have_their_order()
    ensures
        mode_after(RawMode::All) == RawMode::RawOnly,
        mode_after(RawMode::RawOnly) == RawMode::NonRawOnly,
        mode_after(RawMode::NonRawOnly) == RawMode::All,
{
}

} // verus!
