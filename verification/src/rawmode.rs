use vstd::prelude::*;

verus! {

/// The part of a terminal's settings (`termios`) that raw mode changes: the four flag words and
/// the control characters.
#[derive(Debug)]
pub struct TermSettings {
    pub input_flags: u32,
    pub output_flags: u32,
    pub control_flags: u32,
    pub local_flags: u32,
    pub control_chars: Vec<u8>,
}

/// What raw mode does to the settings: the input, output and local flags it turns off, the
/// control flags it turns on and then off, and the control characters (by index) that make a
/// read return after one byte with no time-out.
#[derive(Debug, Clone, Copy, PartialEq, Eq, Structural)]
pub struct RawModeMasks {
    pub input_clear: u32,
    pub output_clear: u32,
    pub control_set: u32,
    pub control_clear: u32,
    pub local_clear: u32,
    pub vmin: usize,
    pub vtime: usize,
}

/// The input flags that raw mode turns off, as libc defines them for the build target.
#[derive(Debug, Clone, Copy, PartialEq, Eq, Structural)]
pub struct InputFlagBits {
    pub ignbrk: u32,
    pub brkint: u32,
    pub parmrk: u32,
    pub inpck: u32,
    pub istrip: u32,
    pub icrnl: u32,
    pub igncr: u32,
    pub ixon: u32,
}

/// The local flags that raw mode turns off, as libc defines them for the build target.
#[derive(Debug, Clone, Copy, PartialEq, Eq, Structural)]
pub struct LocalFlagBits {
    pub echo: u32,
    pub echonl: u32,
    pub icanon: u32,
    pub iexten: u32,
    pub isig: u32,
}

/// The output and control flags, and the control-character indices, that raw mode uses, as
/// libc defines them for the build target.
#[derive(Debug, Clone, Copy, PartialEq, Eq, Structural)]
pub struct OtherTermBits {
    pub opost: u32,
    pub cs8: u32,
    pub parenb: u32,
    pub vmin: usize,
    pub vtime: usize,
}

/// libc's `IGNBRK`, `BRKINT`, `PARMRK`, `INPCK`, `ISTRIP`, `ICRNL`, `IGNCR` and `IXON`. Their
/// values depend on the build target (libc defines them per architecture), so nothing is stated
/// of them.
#[verifier::external_body]
fn libc_input_flag_bits() -> (b: InputFlagBits) {
    InputFlagBits {
        ignbrk: libc::IGNBRK,
        brkint: libc::BRKINT,
        parmrk: libc::PARMRK,
        inpck: libc::INPCK,
        istrip: libc::ISTRIP,
        icrnl: libc::ICRNL,
        igncr: libc::IGNCR,
        ixon: libc::IXON,
    }
}

/// libc's `ECHO`, `ECHONL`, `ICANON`, `IEXTEN` and `ISIG`. Their values depend on the build
/// target, so nothing is stated of them.
#[verifier::external_body]
fn libc_local_flag_bits() -> (b: LocalFlagBits) {
    LocalFlagBits {
        echo: libc::ECHO,
        echonl: libc::ECHONL,
        icanon: libc::ICANON,
        iexten: libc::IEXTEN,
        isig: libc::ISIG,
    }
}

/// libc's `OPOST`, `CS8`, `PARENB`, `VMIN` and `VTIME`. Their values depend on the build target,
/// so nothing is stated of them.
#[verifier::external_body]
fn libc_other_term_bits() -> (b: OtherTermBits) {
    OtherTermBits {
        opost: libc::OPOST,
        cs8: libc::CS8,
        parenb: libc::PARENB,
        vmin: libc::VMIN,
        vtime: libc::VTIME,
    }
}

/// The masks of raw mode made from the system's flags: no break handling, parity marking or
/// checking, stripping, CR/NL translation or flow control on input; no output processing;
/// 8-bit characters without parity; no echo, canonical mode, extensions or signals; reads of
/// one byte at least (`VMIN`), with no time-out (`VTIME`).
pub open spec fn masks_of(i: InputFlagBits, l: LocalFlagBits, o: OtherTermBits) -> RawModeMasks {
    RawModeMasks {
        input_clear: i.ignbrk | i.brkint | i.parmrk | i.inpck | i.istrip | i.icrnl | i.igncr
            | i.ixon,
        output_clear: o.opost,
        control_set: o.cs8,
        control_clear: o.parenb,
        local_clear: l.echo | l.echonl | l.icanon | l.iexten | l.isig,
        vmin: o.vmin,
        vtime: o.vtime,
    }
}

/// The masks of raw mode, from libc's constants, with the constants they were made from.
pub fn raw_mode_masks() -> (r: (RawModeMasks, InputFlagBits, LocalFlagBits, OtherTermBits))
    ensures
        r.0 == masks_of(r.1, r.2, r.3),
{
    let i = libc_input_flag_bits();
    let l = libc_local_flag_bits();
    let o = libc_other_term_bits();
    let m = RawModeMasks {
        input_clear: i.ignbrk | i.brkint | i.parmrk | i.inpck | i.istrip | i.icrnl | i.igncr
            | i.ixon,
        output_clear: o.opost,
        control_set: o.cs8,
        control_clear: o.parenb,
        local_clear: l.echo | l.echonl | l.icanon | l.iexten | l.isig,
        vmin: o.vmin,
        vtime: o.vtime,
    };
    (m, i, l, o)
}

/// Whether `r` is what raw mode makes of `orig` under the masks `m`: each flag word keeps its
/// bits but those that raw mode turns off (control flags: `control_set` turned on first), and
/// the control characters are those of `orig` with `VMIN` at 1 and `VTIME` at 0.
pub open spec fn is_raw_of(r: TermSettings, orig: TermSettings, m: RawModeMasks) -> bool {
    &&& r.input_flags == orig.input_flags & !m.input_clear
    &&& r.output_flags == orig.output_flags & !m.output_clear
    &&& r.control_flags == (orig.control_flags | m.control_set) & !m.control_clear
    &&& r.local_flags == orig.local_flags & !m.local_clear
    &&& r.control_chars@ == orig.control_chars@.update(m.vmin as int, 1u8).update(m.vtime as int, 0u8)
}

/// The settings of raw mode made from `orig` with the masks `m`.
pub fn make_raw(orig: &TermSettings, m: &RawModeMasks) -> (r: TermSettings)
    requires
        m.vmin < orig.control_chars@.len(),
        m.vtime < orig.control_chars@.len(),
    ensures
        is_raw_of(r, *orig, *m),
{
    let mut cc = orig.control_chars.clone();
    assert(cc@ =~= orig.control_chars@);
    cc.set(m.vmin, 1u8);
    cc.set(m.vtime, 0u8);
    TermSettings {
        input_flags: orig.input_flags & !m.input_clear,
        output_flags: orig.output_flags & !m.output_clear,
        control_flags: (orig.control_flags | m.control_set) & !m.control_clear,
        local_flags: orig.local_flags & !m.local_clear,
        control_chars: cc,
    }
}

/// The raw-mode settings of this system made from `orig`, with the masks they were made with
/// and libc's constants those masks come from; `None` where `orig` has too few control
/// characters to hold `VMIN` and `VTIME`.
pub fn raw_settings(orig: &TermSettings) -> (r: (
    Option<TermSettings>,
    RawModeMasks,
    InputFlagBits,
    LocalFlagBits,
    OtherTermBits,
))
    ensures
        r.1 == masks_of(r.2, r.3, r.4),
        r.0 is None <==> !(r.1.vmin < orig.control_chars@.len() && r.1.vtime < orig.control_chars@.len()),
        r.0 matches Some(s) ==> is_raw_of(s, *orig, r.1),
{
    let (m, i, l, o) = raw_mode_masks();
    if m.vmin < orig.control_chars.len() && m.vtime < orig.control_chars.len() {
        (Some(make_raw(orig, &m)), m, i, l, o)
    } else {
        (None, m, i, l, o)
    }
}

/// Raw mode is idempotent: making raw settings raw again changes nothing.
pub proof fn lemma_raw_idempotent(orig: TermSettings, r1: TermSettings, r2: TermSettings, m: RawModeMasks)
    requires
        m.vmin < orig.control_chars@.len(),
        m.vtime < orig.control_chars@.len(),
        is_raw_of(r1, orig, m),
        is_raw_of(r2, r1, m),
    ensures
        r2.input_flags == r1.input_flags,
        r2.output_flags == r1.output_flags,
        r2.control_flags == r1.control_flags,
        r2.local_flags == r1.local_flags,
        r2.control_chars@ == r1.control_chars@,
{
    let (a, b, c, d) = (orig.input_flags, orig.output_flags, orig.control_flags, orig.local_flags);
    let (ic, oc, cs, cc, lc) = (m.input_clear, m.output_clear, m.control_set, m.control_clear, m.local_clear);
    assert((a & !ic) & !ic == a & !ic) by (bit_vector);
    assert((b & !oc) & !oc == b & !oc) by (bit_vector);
    assert((((c | cs) & !cc) | cs) & !cc == (c | cs) & !cc) by (bit_vector);
    assert((d & !lc) & !lc == d & !lc) by (bit_vector);
    assert(r2.control_chars@ =~= r1.control_chars@);
}

/// In raw mode, whatever the settings were, every flag that the masks turn off is off, the
/// flags they turn on stay on unless also turned off, and a read waits for one byte
/// (`VMIN` = 1) with no time-out (`VTIME` = 0).
pub proof fn lemma_raw_flags(orig: TermSettings, r: TermSettings, m: RawModeMasks)
    requires
        is_raw_of(r, orig, m),
        m.vmin < orig.control_chars@.len(),
        m.vtime < orig.control_chars@.len(),
        m.vmin != m.vtime,
    ensures
        r.input_flags & m.input_clear == 0,
        r.output_flags & m.output_clear == 0,
        r.control_flags & m.control_clear == 0,
        r.control_flags & (m.control_set & !m.control_clear) == m.control_set & !m.control_clear,
        r.local_flags & m.local_clear == 0,
        r.control_chars@[m.vmin as int] == 1,
        r.control_chars@[m.vtime as int] == 0,
{
    let (a, b, c, d) = (orig.input_flags, orig.output_flags, orig.control_flags, orig.local_flags);
    let (ic, oc, cs, cc, lc) = (m.input_clear, m.output_clear, m.control_set, m.control_clear, m.local_clear);
    assert((a & !ic) & ic == 0) by (bit_vector);
    assert((b & !oc) & oc == 0) by (bit_vector);
    assert(((c | cs) & !cc) & cc == 0) by (bit_vector);
    assert(((c | cs) & !cc) & (cs & !cc) == cs & !cc) by (bit_vector);
    assert((d & !lc) & lc == 0) by (bit_vector);
}

} // verus!
