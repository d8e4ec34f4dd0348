use gen_doc::rawmode::{make_raw, raw_mode_masks, raw_settings, RawModeMasks, TermSettings};

fn settings(cc_len: usize) -> TermSettings {
    TermSettings {
        input_flags: 0xffff_ffff,
        output_flags: 0x5,
        control_flags: 0x1bf,
        local_flags: 0x8a3b,
        control_chars: (0..cc_len as u8).map(|i| i + 100).collect(),
    }
}

fn libc_masks() -> RawModeMasks {
    RawModeMasks {
        input_clear: libc::IGNBRK | libc::BRKINT | libc::PARMRK | libc::INPCK | libc::ISTRIP
            | libc::ICRNL | libc::IGNCR | libc::IXON,
        output_clear: libc::OPOST,
        control_set: libc::CS8,
        control_clear: libc::PARENB,
        local_clear: libc::ECHO | libc::ECHONL | libc::ICANON | libc::IEXTEN | libc::ISIG,
        vmin: libc::VMIN,
        vtime: libc::VTIME,
    }
}

#[test]
fn masks_match_libc() {
    let (m, i, l, o) = raw_mode_masks();
    assert_eq!(m, libc_masks());
    assert_eq!(i.ixon, libc::IXON);
    assert_eq!(i.ignbrk, libc::IGNBRK);
    assert_eq!(l.iexten, libc::IEXTEN);
    assert_eq!(l.icanon, libc::ICANON);
    assert_eq!(o.cs8, libc::CS8);
    assert_eq!(o.vmin, libc::VMIN);
    assert_eq!(o.vtime, libc::VTIME);
}

#[test]
fn raw_settings_of_terminal() {
    let orig = settings(libc::NCCS);
    let (r, m, i, l, o) = raw_settings(&orig);
    assert_eq!(i.icrnl, libc::ICRNL);
    assert_eq!(l.echo, libc::ECHO);
    assert_eq!(o.parenb, libc::PARENB);
    let r = r.unwrap();
    let e = libc_masks();
    assert_eq!(m, e);
    assert_eq!(r.input_flags, orig.input_flags & !e.input_clear);
    assert_eq!(r.output_flags, orig.output_flags & !e.output_clear);
    assert_eq!(r.control_flags, (orig.control_flags | e.control_set) & !e.control_clear);
    assert_eq!(r.local_flags, orig.local_flags & !e.local_clear);
    let mut cc = orig.control_chars.clone();
    cc[e.vmin] = 1;
    cc[e.vtime] = 0;
    assert_eq!(r.control_chars, cc);
    assert_ne!(r.input_flags, orig.input_flags);
    assert_eq!(r.input_flags & e.input_clear, 0);
    assert_eq!(r.local_flags & e.local_clear, 0);
    assert_eq!(r.control_flags & e.control_set, e.control_set);
}

#[test]
fn raw_settings_too_few_control_chars() {
    let need = libc::VMIN.max(libc::VTIME) + 1;
    assert!(raw_settings(&settings(need - 1)).0.is_none());
    assert!(raw_settings(&settings(0)).0.is_none());
    assert!(raw_settings(&settings(need)).0.is_some());
}

#[test]
fn raw_twice_is_raw_once() {
    let once = raw_settings(&settings(libc::NCCS)).0.unwrap();
    let twice = raw_settings(&once).0.unwrap();
    assert_eq!(once.input_flags, twice.input_flags);
    assert_eq!(once.output_flags, twice.output_flags);
    assert_eq!(once.control_flags, twice.control_flags);
    assert_eq!(once.local_flags, twice.local_flags);
    assert_eq!(once.control_chars, twice.control_chars);
}

#[test]
fn make_raw_with_other_masks() {
    let m = RawModeMasks {
        input_clear: 0xf0,
        output_clear: 0,
        control_set: 0x3,
        control_clear: 0x2,
        local_clear: 0xffff_ffff,
        vmin: 0,
        vtime: 1,
    };
    let orig = TermSettings { input_flags: 0xff, output_flags: 7, control_flags: 0x10, local_flags: 9, control_chars: vec![9, 9, 9] };
    let r = make_raw(&orig, &m);
    assert_eq!(r.input_flags, 0x0f);
    assert_eq!(r.output_flags, 7);
    assert_eq!(r.control_flags, 0x11);
    assert_eq!(r.local_flags, 0);
    assert_eq!(r.control_chars, vec![1, 0, 9]);
}

#[test]
fn make_raw_twice_is_raw_once() {
    let m = RawModeMasks {
        input_clear: 0x0f0f,
        output_clear: 0x3,
        control_set: 0x30,
        control_clear: 0x10,
        local_clear: 0x8,
        vmin: 2,
        vtime: 0,
    };
    let orig = TermSettings { input_flags: 0xabcd, output_flags: 0xff, control_flags: 0x1, local_flags: 0x18, control_chars: vec![5, 6, 7] };
    let once = make_raw(&orig, &m);
    let twice = make_raw(&once, &m);
    assert_eq!(once.control_flags, 0x21);
    assert_eq!(twice.control_flags, once.control_flags);
    assert_eq!(twice.input_flags, once.input_flags);
    assert_eq!(twice.control_chars, vec![0, 6, 1]);
}
