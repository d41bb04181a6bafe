use vstd::prelude::*;
use crate::report::BacktraceFrame;
use crate::text::{decimal_i64, decimal_int};

verus! {

/// A frame as the unwinder reports it, before its symbols are turned into text.
#[derive(Clone, Debug)]
pub struct RawFrame {
    pub ip: usize,
    pub symbol_address: usize,
    /// Base address of the module that holds the frame, where the unwinder knows it.
    pub module_base: Option<usize>,
    /// One entry per symbol of the frame: its demangled name, where it has one.
    pub symbol_names: Vec<Option<String>>,
}

/// An address read as a signed machine word, as `usize as isize` reads it.
pub open spec fn signed(x: usize) -> int {
    if x <= isize::MAX { x as int } else { x as int - (usize::MAX as int + 1) }
}

/// `a - b` held to the range of `isize`.
pub open spec fn saturating_diff(a: int, b: int) -> int {
    if a - b < isize::MIN { isize::MIN as int }
    else if a - b > isize::MAX { isize::MAX as int }
    else { a - b }
}

/// Offset of an instruction pointer from a module base.
pub open spec fn frame_offset(ip: usize, base: usize) -> int {
    saturating_diff(signed(ip), signed(base))
}

pub open spec fn unknown_symbol() -> Seq<char> {
    seq!['<', 'u', 'n', 'k', 'n', 'o', 'w', 'n', '>']
}

/// Text of one symbol: its name (or `<unknown>`), `+`, and the frame's offset.
pub open spec fn symbol_text(name: Option<String>, offset: int) -> Seq<char> {
    let n = match name {
        Some(s) => s@,
        None => unknown_symbol(),
    };
    n + seq!['+'] + decimal_int(offset)
}

/// Base address used for a frame: its module's, else the main module's.
pub open spec fn frame_base(f: RawFrame, main_base: usize) -> usize {
    match f.module_base {
        Some(b) => b,
        None => main_base,
    }
}

/// Texts of the symbols of one frame, in order.
pub open spec fn frame_texts(f: RawFrame, main_base: usize) -> Seq<Seq<char>> {
    f.symbol_names@.map_values(|n: Option<String>| symbol_text(n, frame_offset(f.ip, frame_base(f, main_base))))
}

/// Texts of the symbols of all frames, frame after frame.
pub open spec fn backtrace_texts(frames: Seq<RawFrame>, main_base: usize) -> Seq<Seq<char>>
    decreases frames.len(),
{
    if frames.len() == 0 {
        Seq::empty()
    } else {
        backtrace_texts(frames.drop_last(), main_base) + frame_texts(frames.last(), main_base)
    }
}

/// Whether a symbol name is the runtime's entry point for unwinding.
pub open spec fn is_unwind_entry(s: Seq<char>) -> bool {
    s == "rust_begin_unwind"@ || s == "_rust_begin_unwind"@
}

pub open spec fn is_unwind_name(n: Option<String>) -> bool {
    n matches Some(s) && is_unwind_entry(s@)
}

/// For each symbol of one frame, whether it is the unwinding entry point.
pub open spec fn frame_flags(f: RawFrame) -> Seq<bool> {
    f.symbol_names@.map_values(|n: Option<String>| is_unwind_name(n))
}

/// For each symbol of all frames, frame after frame, whether it is the unwinding entry point.
pub open spec fn backtrace_flags(frames: Seq<RawFrame>) -> Seq<bool>
    decreases frames.len(),
{
    if frames.len() == 0 {
        Seq::empty()
    } else {
        backtrace_flags(frames.drop_last()) + frame_flags(frames.last())
    }
}

/// The texts after the first one flagged as the unwinding entry point; all of them where
/// none is flagged.
pub open spec fn strip_unwind(texts: Seq<Seq<char>>, flags: Seq<bool>) -> Seq<Seq<char>> {
    if exists|i: int| 0 <= i < flags.len() && flags[i] {
        let k = choose|k: int| 0 <= k < flags.len() && flags[k] && forall|j: int| 0 <= j < k ==> !flags[j];
        texts.subrange(k + 1, texts.len() as int)
    } else {
        texts
    }
}

/// The first symbol of each frame that resolved to at least one, in frame order.
pub open spec fn first_symbols(frames: Seq<BacktraceFrame>) -> Seq<Seq<char>>
    decreases frames.len(),
{
    if frames.len() == 0 {
        Seq::empty()
    } else {
        let f = frames.last();
        let rest = first_symbols(frames.drop_last());
        if f.symbols@.len() > 0 { rest.push(f.symbols@[0]@) } else { rest }
    }
}

/// Lines joined by `\n`.
pub open spec fn join_lines(lines: Seq<Seq<char>>) -> Seq<char>
    decreases lines.len(),
{
    if lines.len() == 0 {
        Seq::empty()
    } else if lines.len() == 1 {
        lines[0]
    } else {
        join_lines(lines.drop_last()) + seq!['\n'] + lines.last()
    }
}

pub open spec fn hang_header() -> Seq<char> {
    "Suspected hang on main thread:\n"@
}

proof fn lemma_views_push(v: Seq<String>, s: String)
    ensures
        v.push(s).map_values(|x: String| x@) == v.map_values(|x: String| x@).push(s@),
{
    assert(v.push(s).map_values(|x: String| x@) =~= v.map_values(|x: String| x@).push(s@));
}

fn as_signed(x: usize) -> (r: isize)
    ensures
        r as int == signed(x),
{
    if x <= isize::MAX as usize {
        x as isize
    } else {
        let low = (x - isize::MAX as usize - 1) as isize;
        low + isize::MIN
    }
}

/// Offset of `ip` from `base`, each read as a signed word, held to the range of `isize`.
pub fn offset_from_base(ip: usize, base: usize) -> (r: isize)
    ensures
        r as int == frame_offset(ip, base),
{
    let a = as_signed(ip);
    let b = as_signed(base);
    if b > 0 && a < isize::MIN + b {
        isize::MIN
    } else if b < 0 && a > isize::MAX + b {
        isize::MAX
    } else {
        a - b
    }
}

fn symbol_string(name: &Option<String>, offset: isize) -> (r: String)
    ensures
        r@ == symbol_text(*name, offset as int),
{
    let mut s = match name {
        Some(n) => n.clone(),
        None => {
            proof { reveal_strlit("<unknown>"); }
            String::from_str("<unknown>")
        },
    };
    proof { reveal_strlit("+"); }
    s.append("+");
    let d = decimal_i64(offset as i64);
    s.append(d.as_str());
    s
}

fn symbol_entries(frames: &Vec<RawFrame>, main_base: usize) -> (r: (Vec<String>, Vec<bool>))
    ensures
        r.0@.map_values(|s: String| s@) == backtrace_texts(frames@, main_base),
        r.1@ == backtrace_flags(frames@),
        r.0@.len() == r.1@.len(),
{
    let mut out: Vec<String> = Vec::new();
    let mut flags: Vec<bool> = Vec::new();
    let mut i: usize = 0;
    while i < frames.len()
        invariant
            i <= frames@.len(),
            out@.map_values(|s: String| s@) == backtrace_texts(frames@.subrange(0, i as int), main_base),
            flags@ == backtrace_flags(frames@.subrange(0, i as int)),
            out@.len() == flags@.len(),
        decreases frames@.len() - i,
    {
        let f = &frames[i];
        let base = match f.module_base {
            Some(b) => b,
            None => main_base,
        };
        let offset = offset_from_base(f.ip, base);
        let ghost before = out@.map_values(|s: String| s@);
        let ghost before_flags = flags@;
        let mut j: usize = 0;
        while j < f.symbol_names.len()
            invariant
                j <= f.symbol_names@.len(),
                offset as int == frame_offset(f.ip, frame_base(*f, main_base)),
                out@.map_values(|s: String| s@) == before + frame_texts(*f, main_base).subrange(0, j as int),
                flags@ == before_flags + frame_flags(*f).subrange(0, j as int),
                out@.len() == flags@.len(),
            decreases f.symbol_names@.len() - j,
        {
            let s = symbol_string(&f.symbol_names[j], offset);
            assert(frame_texts(*f, main_base)[j as int] == s@);
            let ghost prev = out@;
            out.push(s);
            let flag = match &f.symbol_names[j] {
                Some(n) => is_unwind_entry_text(n),
                None => false,
            };
            flags.push(flag);
            proof {
                lemma_views_push(prev, s);
                let ft = frame_texts(*f, main_base);
                assert(before + ft.subrange(0, j + 1) =~= (before + ft.subrange(0, j as int)).push(ft[j as int]));
                let fl = frame_flags(*f);
                assert(before_flags + fl.subrange(0, j + 1) =~= (before_flags + fl.subrange(0, j as int)).push(fl[j as int]));
            }
            j = j + 1;
        }
        proof {
            let fs = frames@.subrange(0, i + 1);
            assert(fs.drop_last() =~= frames@.subrange(0, i as int));
            assert(frame_texts(*f, main_base).subrange(0, j as int) =~= frame_texts(*f, main_base));
            assert(frame_flags(*f).subrange(0, j as int) =~= frame_flags(*f));
        }
        i = i + 1;
    }
    assert(frames@.subrange(0, frames@.len() as int) =~= frames@);
    (out, flags)
}

/// Texts of the symbols of all frames, `name+offset` each, with `<unknown>` for a symbol
/// without a name and the offset taken from the frame's module base (else `main_base`).
pub fn backtrace_symbols(frames: &Vec<RawFrame>, main_base: usize) -> (r: Vec<String>)
    ensures
        r@.map_values(|s: String| s@) == backtrace_texts(frames@, main_base),
{
    symbol_entries(frames, main_base).0
}

fn is_unwind_entry_text(s: &String) -> (r: bool)
    ensures
        r == is_unwind_entry(s@),
{
    let a = String::from_str("rust_begin_unwind");
    let b = String::from_str("_rust_begin_unwind");
    *s == a || *s == b
}

/// Drops every text up to and including the first whose symbol is the runtime's
/// unwinding entry point (`unwind[i]` says so of `symbols[i]`), so that only the
/// application's frames remain.
pub fn strip_unwind_frames(symbols: Vec<String>, unwind: &Vec<bool>) -> (r: Vec<String>)
    requires
        symbols@.len() == unwind@.len(),
    ensures
        r@.map_values(|s: String| s@) == strip_unwind(symbols@.map_values(|s: String| s@), unwind@),
{
    let ghost texts = symbols@.map_values(|s: String| s@);
    let ghost flags = unwind@;
    let mut k: usize = 0;
    while k < symbols.len()
        invariant
            k <= symbols@.len(),
            symbols@.len() == flags.len(),
            flags == unwind@,
            texts == symbols@.map_values(|s: String| s@),
            forall|j: int| 0 <= j < k ==> !flags[j],
        decreases symbols@.len() - k,
    {
        if unwind[k] {
            proof {
                let c = choose|c: int| 0 <= c < flags.len() && flags[c] && forall|j: int| 0 <= j < c ==> !flags[j];
                assert(flags[k as int]);
                assert(c == k) by {
                    if c > k {
                        assert(!flags[k as int]);
                    }
                };
            }
            let mut out: Vec<String> = Vec::new();
            let mut m: usize = k + 1;
            while m < symbols.len()
                invariant
                    k < m <= symbols@.len(),
                    texts == symbols@.map_values(|s: String| s@),
                    out@.map_values(|s: String| s@) == texts.subrange(k + 1, m as int),
                decreases symbols@.len() - m,
            {
                let c = symbols[m].clone();
                assert(texts[m as int] == c@);
                let ghost prev = out@;
                out.push(c);
                proof {
                    lemma_views_push(prev, c);
                    assert(texts.subrange(k + 1, m + 1) =~= texts.subrange(k + 1, m as int).push(texts[m as int]));
                }
                m = m + 1;
            }
            return out;
        }
        k = k + 1;
    }
    symbols
}

/// The symbol texts of a faulting thread: every symbol of every frame, without the
/// runtime's own unwinding frames.
pub fn panic_backtrace(frames: &Vec<RawFrame>, main_base: usize) -> (r: Vec<String>)
    ensures
        r@.map_values(|s: String| s@) == strip_unwind(backtrace_texts(frames@, main_base), backtrace_flags(frames@)),
{
    let (texts, flags) = symbol_entries(frames, main_base);
    strip_unwind_frames(texts, &flags)
}

/// The one-line-per-frame summary logged for a stall: a header line, then the first
/// symbol of each frame that has one.
pub fn hang_summary(frames: &Vec<BacktraceFrame>) -> (r: String)
    ensures
        r@ == hang_header() + join_lines(first_symbols(frames@)),
{
    let mut body = String::new();
    let mut count: usize = 0;
    let mut i: usize = 0;
    while i < frames.len()
        invariant
            i <= frames@.len(),
            count as int == first_symbols(frames@.subrange(0, i as int)).len(),
            count <= i,
            body@ == join_lines(first_symbols(frames@.subrange(0, i as int))),
        decreases frames@.len() - i,
    {
        let ghost fs = frames@.subrange(0, i + 1);
        assert(fs.drop_last() =~= frames@.subrange(0, i as int));
        let ghost rest = first_symbols(frames@.subrange(0, i as int));
        if frames[i].symbols.len() > 0 {
            let ghost x = frames@[i as int].symbols@[0]@;
            assert(first_symbols(fs) == rest.push(x));
            assert(rest.push(x).drop_last() =~= rest);
            if count > 0 {
                proof { reveal_strlit("\n"); }
                body.append("\n");
            } else {
                assert(rest.len() == 0);
                assert(body@ =~= Seq::<char>::empty());
            }
            body.append(frames[i].symbols[0].as_str());
            proof {
                if count == 0 {
                    assert(body@ =~= x);
                    assert(rest.push(x)[0] == x);
                }
            }
            count = count + 1;
        } else {
            assert(first_symbols(fs) == rest);
        }
        i = i + 1;
    }
    assert(frames@.subrange(0, frames@.len() as int) =~= frames@);
    let mut out = String::from_str("Suspected hang on main thread:\n");
    out.append(body.as_str());
    out
}

} // verus!
