//! Emission and parsing of a minimal WebAssembly module.
//!
//! The module consists of the standard 8-byte preamble (magic number and
//! version) followed by a single custom section (id 0) whose name is `test`
//! and whose payload is the 13 bytes `Test section!`. Sizes and the name
//! length are encoded as unsigned LEB128, as the wasm binary format requires.

use vstd::prelude::*;

verus! {

/// The 8-byte wasm preamble: magic `\0asm` followed by version 1.
pub open spec fn module_preamble() -> Seq<u8> {
    seq![0x00u8, 0x61u8, 0x73u8, 0x6du8, 0x01u8, 0x00u8, 0x00u8, 0x00u8]
}

/// The 4-byte section name `test`.
pub open spec fn section_name() -> Seq<u8> {
    seq![0x74u8, 0x65u8, 0x73u8, 0x74u8]
}

/// The 13-byte section payload `Test section!`.
pub open spec fn section_payload() -> Seq<u8> {
    seq![
        0x54u8, 0x65u8, 0x73u8, 0x74u8, 0x20u8, 0x73u8, 0x65u8, 0x63u8, 0x74u8, 0x69u8, 0x6fu8,
        0x6eu8, 0x21u8,
    ]
}

/// The full emitted module: preamble, then one custom section (id 0) of
/// 18 content bytes: a 1-byte name length, the 4-byte name, the 13-byte
/// payload.
pub open spec fn module_bytes() -> Seq<u8> {
    module_preamble() + seq![0x00u8, 0x12u8, 0x04u8] + section_name() + section_payload()
}

/// Decodes an unsigned LEB128 integer of at most 32 bits from the front of
/// `s`: the value and the number of bytes consumed. Returns `None` when `s`
/// is empty, the encoding runs past the end of `s`, it takes more than the
/// 5 bytes the format allows for 32-bit values, or the value does not fit in
/// 32 bits.
pub open spec fn uleb_decode(s: Seq<u8>) -> Option<(int, int)>
    decreases s.len(),
{
    if s.len() == 0 {
        None
    } else {
        let b: int = s[0] as int;
        if b < 0x80 {
            Some((b, 1))
        } else {
            match uleb_decode(s.skip(1)) {
                Some(t) => {
                    let v: int = (b - 0x80) + 0x80 * t.0;
                    if t.1 >= 5 || v >= 0x1_0000_0000 {
                        None
                    } else {
                        Some((v, t.1 + 1))
                    }
                }
                None => None,
            }
        }
    }
}

/// Reads an unsigned LEB128 value of at most 32 bits from `m` at offset
/// `pos`, exactly as `uleb_decode` describes on the suffix of `m` from `pos`.
fn read_uleb(m: &Vec<u8>, pos: usize) -> (r: Option<(u32, usize)>)
    requires
        pos <= m@.len(),
    ensures
        match r {
            Some(p) => {
                &&& uleb_decode(m@.skip(pos as int)) == Some((p.0 as int, p.1 as int))
                &&& 1 <= p.1 <= 5
                &&& pos + p.1 <= m@.len()
            },
            None => uleb_decode(m@.skip(pos as int)) is None,
        },
    decreases m@.len() - pos,
{
    if pos >= m.len() {
        return None;
    }
    let ghost s: Seq<u8> = m@.skip(pos as int);
    let b = m[pos];
    proof {
        assert(s[0] == m@[pos as int]);
        assert(s.skip(1) =~= m@.skip(pos as int + 1));
    }
    if b < 0x80 {
        Some((b as u32, 1))
    } else {
        match read_uleb(m, pos + 1) {
            Some(t) => {
                if t.1 >= 5 {
                    None
                } else {
                    let low: u32 = (b - 0x80) as u32;
                    match t.0.checked_mul(0x80) {
                        Some(hi) => match hi.checked_add(low) {
                            Some(v) => Some((v, t.1 + 1)),
                            None => None,
                        },
                        None => None,
                    }
                }
            }
            None => None,
        }
    }
}

/// Parses a run of wasm sections: each is a 1-byte id, a LEB128 content
/// size, and that many content bytes. Returns the sections in order as
/// (id, content) pairs, or `None` if the bytes are not exactly a run of
/// well-formed sections.
pub open spec fn parse_sections(s: Seq<u8>) -> Option<Seq<(u8, Seq<u8>)>>
    decreases s.len(),
{
    if s.len() == 0 {
        Some(Seq::empty())
    } else {
        match uleb_decode(s.skip(1)) {
            Some(t) => {
                let size: int = t.0;
                let used: int = t.1;
                if size < 0 || used < 1 || 1 + used + size > s.len() {
                    None
                } else {
                    match parse_sections(s.skip(1 + used + size)) {
                        Some(rest) => Some(
                            seq![(s[0], s.subrange(1 + used, 1 + used + size))] + rest,
                        ),
                        None => None,
                    }
                }
            }
            None => None,
        }
    }
}

/// Parses a whole wasm module: the 8-byte preamble followed by a run of
/// sections.
pub open spec fn parse_module_spec(s: Seq<u8>) -> Option<Seq<(u8, Seq<u8>)>> {
    if s.len() >= 8 && s.subrange(0, 8) == module_preamble() {
        parse_sections(s.skip(8))
    } else {
        None
    }
}

/// Splits the content of a custom section (id 0) into its name and payload:
/// a LEB128 name length, the name bytes, and the remaining payload bytes.
pub open spec fn parse_custom(content: Seq<u8>) -> Option<(Seq<u8>, Seq<u8>)> {
    match uleb_decode(content) {
        Some(t) => {
            let n: int = t.0;
            let used: int = t.1;
            if n < 0 || used < 1 || used + n > content.len() {
                None
            } else {
                Some((content.subrange(used, used + n), content.skip(used + n)))
            }
        }
        None => None,
    }
}

/// The payload of the first custom section among `sections` whose name is
/// `name`, if any.
pub open spec fn find_custom(sections: Seq<(u8, Seq<u8>)>, name: Seq<u8>) -> Option<Seq<u8>>
    decreases sections.len(),
{
    if sections.len() == 0 {
        None
    } else {
        match parse_custom(sections[0].1) {
            Some(np) => {
                if sections[0].0 == 0 && np.0 == name {
                    Some(np.1)
                } else {
                    find_custom(sections.skip(1), name)
                }
            }
            None => find_custom(sections.skip(1), name),
        }
    }
}

/// One section of a wasm module: its id byte and its content bytes.
pub struct Section {
    pub id: u8,
    pub content: Vec<u8>,
}

impl View for Section {
    type V = (u8, Seq<u8>);

    open spec fn view(&self) -> (u8, Seq<u8>) {
        (self.id, self.content@)
    }
}

/// Compares two byte vectors for equality of contents.
fn bytes_eq(a: &Vec<u8>, b: &Vec<u8>) -> (r: bool)
    ensures
        r <==> a@ == b@,
{
    if a.len() != b.len() {
        return false;
    }
    let mut i: usize = 0;
    while i < a.len()
        invariant
            i <= a@.len(),
            a@.len() == b@.len(),
            forall|j: int| 0 <= j < i ==> a@[j] == b@[j],
        decreases a@.len() - i,
    {
        if a[i] != b[i] {
            return false;
        }
        i += 1;
    }
    proof {
        assert(a@ =~= b@);
    }
    true
}

/// Copies the bytes of `m` from `from` (inclusive) to `to` (exclusive).
fn copy_range(m: &Vec<u8>, from: usize, to: usize) -> (r: Vec<u8>)
    requires
        from <= to <= m@.len(),
    ensures
        r@ == m@.subrange(from as int, to as int),
{
    let mut out: Vec<u8> = Vec::new();
    let mut i: usize = from;
    while i < to
        invariant
            from <= i <= to,
            to <= m@.len(),
            out@ == m@.subrange(from as int, i as int),
        decreases to - i,
    {
        out.push(m[i]);
        proof {
            assert(m@.subrange(from as int, i + 1) =~= m@.subrange(from as int, i as int).push(
                m@[i as int],
            ));
        }
        i += 1;
    }
    out
}

/// Parses `m` as a wasm module into its sections, exactly as
/// `parse_module_spec` describes on the bytes of `m`.
pub fn parse_module(m: &Vec<u8>) -> (r: Option<Vec<Section>>)
    ensures
        match r {
            Some(v) => parse_module_spec(m@) == Some(v@.map_values(|s: Section| s@)),
            None => parse_module_spec(m@) is None,
        },
{
    if m.len() < 8 {
        return None;
    }
    let ok: bool = m[0] == 0x00 && m[1] == 0x61 && m[2] == 0x73 && m[3] == 0x6d && m[4] == 0x01
        && m[5] == 0x00 && m[6] == 0x00 && m[7] == 0x00;
    proof {
        assert(forall|i: int| 0 <= i < 8 ==> m@.subrange(0, 8)[i] == m@[i]);
        if ok {
            assert(m@.subrange(0, 8) =~= module_preamble());
        } else {
            assert(m@.subrange(0, 8) != module_preamble());
        }
    }
    if !ok {
        return None;
    }
    let mut pos: usize = 8;
    let mut out: Vec<Section> = Vec::new();
    while pos < m.len()
        invariant
            8 <= pos <= m@.len(),
            parse_sections(m@.skip(8)) == (match parse_sections(m@.skip(pos as int)) {
                Some(rest) => Some(out@.map_values(|s: Section| s@) + rest),
                None => None::<Seq<(u8, Seq<u8>)>>,
            }),
        decreases m@.len() - pos,
    {
        let ghost s: Seq<u8> = m@.skip(pos as int);
        let id = m[pos];
        proof {
            assert(s[0] == m@[pos as int]);
            assert(s.skip(1) =~= m@.skip(pos as int + 1));
        }
        match read_uleb(m, pos + 1) {
            None => {
                return None;
            },
            Some(su) => {
                let size: usize = su.0 as usize;
                let used: usize = su.1;
                let start: usize = pos + 1 + used;
                if size > m.len() - start {
                    return None;
                }
                let end: usize = start + size;
                let content = copy_range(m, start, end);
                proof {
                    assert(content@ =~= s.subrange(
                        1 + used as int,
                        1 + used as int + size as int,
                    ));
                    assert(s.skip(1 + used as int + size as int) =~= m@.skip(end as int));
                }
                let ghost old_out: Seq<(u8, Seq<u8>)> = out@.map_values(|s: Section| s@);
                out.push(Section { id, content });
                proof {
                    assert(out@.map_values(|s: Section| s@) =~= old_out + seq![
                        (id, content@),
                    ]);
                    if parse_sections(m@.skip(end as int)) is Some {
                        let rest = parse_sections(m@.skip(end as int))->Some_0;
                        assert(parse_sections(s) == Some(seq![(id, content@)] + rest));
                        assert(old_out + (seq![(id, content@)] + rest) =~= (old_out + seq![
                            (id, content@),
                        ]) + rest);
                    }
                }
                pos = end;
            },
        }
    }
    proof {
        assert(m@.skip(pos as int).len() == 0);
        assert(parse_sections(m@.skip(pos as int)) == Some(Seq::<(u8, Seq<u8>)>::empty()));
        assert(out@.map_values(|s: Section| s@) + Seq::<(u8, Seq<u8>)>::empty()
            =~= out@.map_values(|s: Section| s@));
    }
    Some(out)
}

/// Splits the content of a custom section into its name and its payload,
/// exactly as `parse_custom` describes on the bytes of `content`.
pub fn parse_custom_section(content: &Vec<u8>) -> (r: Option<(Vec<u8>, Vec<u8>)>)
    ensures
        match r {
            Some(p) => parse_custom(content@) == Some((p.0@, p.1@)),
            None => parse_custom(content@) is None,
        },
{
    proof {
        assert(content@.skip(0) =~= content@);
    }
    match read_uleb(content, 0) {
        None => None,
        Some(su) => {
            let n: usize = su.0 as usize;
            let used: usize = su.1;
            if n > content.len() - used {
                None
            } else {
                let name = copy_range(content, used, used + n);
                let payload = copy_range(content, used + n, content.len());
                proof {
                    assert(content@.subrange(used + n, content@.len() as int) =~= content@.skip(
                        used + n,
                    ));
                }
                Some((name, payload))
            }
        },
    }
}

/// Returns the payload of the first custom section of the module `m` whose
/// name is `name`: `None` when `m` does not parse as a wasm module or no
/// custom section bears that name.
pub fn find_custom_section(m: &Vec<u8>, name: &Vec<u8>) -> (r: Option<Vec<u8>>)
    ensures
        ({
            let found = match parse_module_spec(m@) {
                Some(sections) => find_custom(sections, name@),
                None => None::<Seq<u8>>,
            };
            match r {
                Some(p) => found == Some(p@),
                None => found is None,
            }
        }),
{
    match parse_module(m) {
        None => None,
        Some(sections) => {
            let ghost ss: Seq<(u8, Seq<u8>)> = sections@.map_values(|s: Section| s@);
            proof {
                assert(ss.skip(0) =~= ss);
            }
            let mut k: usize = 0;
            while k < sections.len()
                invariant
                    k <= sections@.len(),
                    ss == sections@.map_values(|s: Section| s@),
                    parse_module_spec(m@) == Some(ss),
                    find_custom(ss, name@) == find_custom(ss.skip(k as int), name@),
                decreases sections@.len() - k,
            {
                let ghost tail = ss.skip(k as int);
                proof {
                    assert(tail[0] == ss[k as int]);
                    assert(ss[k as int] == sections@[k as int]@);
                    assert(tail.skip(1) =~= ss.skip(k as int + 1));
                }
                let sec: &Section = &sections[k];
                if sec.id == 0 {
                    match parse_custom_section(&sec.content) {
                        Some(np) => {
                            if bytes_eq(&np.0, name) {
                                proof {
                                    assert(find_custom(tail, name@) == Some(np.1@));
                                }
                                return Some(np.1);
                            }
                        },
                        None => {},
                    }
                }
                k += 1;
            }
            proof {
                assert(ss.skip(k as int).len() == 0);
            }
            None
        },
    }
}

/// Returns the section payload, `Test section!`, as exported by the module.
pub fn section_bytes() -> (r: Vec<u8>)
    ensures
        r@ == section_payload(),
{
    let mut v: Vec<u8> = Vec::new();
    v.push(0x54);
    v.push(0x65);
    v.push(0x73);
    v.push(0x74);
    v.push(0x20);
    v.push(0x73);
    v.push(0x65);
    v.push(0x63);
    v.push(0x74);
    v.push(0x69);
    v.push(0x6f);
    v.push(0x6e);
    v.push(0x21);
    proof {
        assert(v@ =~= section_payload());
    }
    v
}

/// Returns the section name, `test`, as it appears in the module.
pub fn name_bytes() -> (r: Vec<u8>)
    ensures
        r@ == section_name(),
{
    let mut v: Vec<u8> = Vec::new();
    v.push(0x74);
    v.push(0x65);
    v.push(0x73);
    v.push(0x74);
    proof {
        assert(v@ =~= section_name());
    }
    v
}

/// Builds the wasm module: preamble plus the one custom section named `test`.
pub fn build_module() -> (r: Vec<u8>)
    ensures
        r@ == module_bytes(),
{
    let mut v: Vec<u8> = Vec::new();
    v.push(0x00);
    v.push(0x61);
    v.push(0x73);
    v.push(0x6d);
    v.push(0x01);
    v.push(0x00);
    v.push(0x00);
    v.push(0x00);
    v.push(0x00);
    v.push(0x12);
    v.push(0x04);
    let mut name = name_bytes();
    v.append(&mut name);
    let mut payload = section_bytes();
    v.append(&mut payload);
    proof {
        assert(v@ =~= module_bytes());
    }
    v
}

/// The emitted module is well formed: it parses as a wasm module, it carries
/// exactly one section, and that section is a custom section whose name is
/// `test` and whose payload is `Test section!`: so exactly one section of
/// the module bears that name, and looking the name up yields the payload.
pub proof fn lemma_module_bytes_sections()
    ensures
        parse_module_spec(module_bytes()) is Some,
        parse_module_spec(module_bytes())->Some_0.len() == 1,
        parse_module_spec(module_bytes())->Some_0[0].0 == 0,
        parse_custom(parse_module_spec(module_bytes())->Some_0[0].1) == Some(
            (section_name(), section_payload()),
        ),
        find_custom(parse_module_spec(module_bytes())->Some_0, section_name()) == Some(
            section_payload(),
        ),
{
    let mb = module_bytes();
    assert(mb.subrange(0, 8) =~= module_preamble());
    let s = mb.skip(8);
    assert(s =~= seq![0x00u8, 0x12u8, 0x04u8] + section_name() + section_payload());
    assert(s.len() == 20);
    assert(s[0] == 0x00u8);
    let s1 = s.skip(1);
    assert(s1 =~= seq![0x12u8, 0x04u8] + section_name() + section_payload());
    assert(s1[0] == 0x12u8);
    assert(uleb_decode(s1) == Some((18int, 1int)));
    let content = s.subrange(2, 20);
    assert(content =~= seq![0x04u8] + section_name() + section_payload());
    assert(s.skip(20).len() == 0);
    assert(parse_sections(s.skip(20)) == Some(Seq::<(u8, Seq<u8>)>::empty()));
    assert(parse_sections(s) == Some(
        seq![(0x00u8, content)] + Seq::<(u8, Seq<u8>)>::empty(),
    ));
    let sections = parse_sections(s)->Some_0;
    assert(sections =~= seq![(0x00u8, content)]);
    assert(content[0] == 0x04u8);
    assert(uleb_decode(content) == Some((4int, 1int)));
    assert(content.subrange(1, 5) =~= section_name());
    assert(content.skip(5) =~= section_payload());
    assert(parse_custom(content) == Some((section_name(), section_payload())));
    assert(find_custom(sections, section_name()) == Some(section_payload()));
    assert(parse_module_spec(mb) == parse_sections(s));
}

} // verus!
