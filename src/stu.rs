use vstd::prelude::*;

verus! {

/// Why a build token could not be read.
#[derive(Debug, Clone, Copy, PartialEq, Eq, Structural)]
pub enum SkillTreeUrlError {
    /// The text is not URL-safe base64.
    Decode,
    /// The format version is not one this decoder knows.
    UnknownVersion(u32),
    /// The bytes end before the fields they announce.
    Eof,
}

/// A decoded build token: the chosen class, ascendancy, alternate ascendancy
/// and the allocated node ids, in the order in which they were encoded.
#[derive(Debug, PartialEq, Eq)]
pub struct SkillTreeUrl {
    pub class: u8,
    pub ascendancy: u8,
    pub alternate_ascendancy: u8,
    pub nodes: Vec<u16>,
}

/// The mathematical value of a decoded token.
pub struct SkillTreeUrlView {
    pub class: u8,
    pub ascendancy: u8,
    pub alternate_ascendancy: u8,
    pub nodes: Seq<u16>,
}

impl View for SkillTreeUrl {
    type V = SkillTreeUrlView;

    open spec fn view(&self) -> SkillTreeUrlView {
        SkillTreeUrlView {
            class: self.class,
            ascendancy: self.ascendancy,
            alternate_ascendancy: self.alternate_ascendancy,
            nodes: self.nodes@,
        }
    }
}

pub open spec fn view_result(r: Result<SkillTreeUrl, SkillTreeUrlError>) -> Result<
    SkillTreeUrlView,
    SkillTreeUrlError,
> {
    match r {
        Ok(u) => Ok(u@),
        Err(e) => Err(e),
    }
}

/// A big-endian 16-bit value.
pub open spec fn be_u16(hi: u8, lo: u8) -> u16 {
    (hi as int * 256 + lo as int) as u16
}

/// A big-endian 32-bit value from the first four bytes.
pub open spec fn be_u32(d: Seq<u8>) -> u32 {
    (d[0] as int * 0x100_0000 + d[1] as int * 0x1_0000 + d[2] as int * 0x100 + d[3] as int) as u32
}

/// `amount` big-endian 16-bit values stored from byte `start` on.
pub open spec fn u16s_at(d: Seq<u8>, start: int, amount: nat) -> Seq<u16> {
    Seq::new(amount, |k: int| be_u16(d[start + 2 * k], d[start + 2 * k + 1]))
}

/// The selection that the bytes of a token encode, or why they encode none.
pub open spec fn decode_bytes(d: Seq<u8>) -> Result<SkillTreeUrlView, SkillTreeUrlError> {
    if d.len() < 6 {
        Err(SkillTreeUrlError::Eof)
    } else {
        let version = be_u32(d);
        let class = d[4];
        let ascendancy = (d[5] % 4) as u8;
        let alternate_ascendancy = ((d[5] / 4) % 4) as u8;
        if version != 4 && version != 5 && version != 6 {
            Err(SkillTreeUrlError::UnknownVersion(version))
        } else if d.len() < 7 {
            Err(SkillTreeUrlError::Eof)
        } else {
            let amount: nat = if version == 4 {
                ((d.len() - 7) / 2) as nat
            } else {
                d[6] as nat
            };
            if d.len() < 7 + 2 * amount {
                Err(SkillTreeUrlError::Eof)
            } else {
                Ok(
                    SkillTreeUrlView {
                        class,
                        ascendancy,
                        alternate_ascendancy,
                        nodes: u16s_at(d, 7, amount),
                    },
                )
            }
        }
    }
}

/// The bytes of a version 5 token for a selection.
pub open spec fn encode_v5(u: SkillTreeUrlView) -> Seq<u8> {
    seq![0u8, 0u8, 0u8, 5u8, u.class, (u.ascendancy + 4 * u.alternate_ascendancy) as u8, u.nodes.len() as u8]
        + Seq::new(2 * u.nodes.len(), |i: int| {
            if i % 2 == 0 {
                (u.nodes[i / 2] / 256) as u8
            } else {
                (u.nodes[i / 2] % 256) as u8
            }
        })
}

/// The text form of a token: what URL-safe base64, with padding optional,
/// decodes it to.
pub uninterp spec fn base64url_decoded(s: Seq<char>) -> Option<Seq<u8>>;

#[verifier::external_type_specification]
#[verifier::external_body]
pub struct ExDecodeError(base64::DecodeError);

/// Relies on base64's `Engine::decode` with the URL-safe alphabet and
/// `DecodePaddingMode::Indifferent`: the outcome depends on the text alone.
#[verifier::external_body]
fn decode_base64url(s: &str) -> (r: Result<Vec<u8>, base64::DecodeError>)
    ensures
        match r {
            Ok(v) => base64url_decoded(s@) == Some(v@),
            Err(_) => base64url_decoded(s@) is None,
        },
{
    let config = base64::engine::GeneralPurposeConfig::new().with_decode_padding_mode(
        base64::engine::DecodePaddingMode::Indifferent,
    );
    let engine = base64::engine::GeneralPurpose::new(&base64::alphabet::URL_SAFE, config);
    base64::Engine::decode(&engine, s)
}

/// Reads `amount` big-endian 16-bit values from byte `start` on.
pub fn read_u16s(data: &[u8], start: usize, amount: usize) -> (r: Result<Vec<u16>, SkillTreeUrlError>)
    requires
        start + 2 * amount <= usize::MAX,
    ensures
        data@.len() < start + 2 * amount ==> r == Err::<Vec<u16>, _>(SkillTreeUrlError::Eof),
        data@.len() >= start + 2 * amount ==> r is Ok && r->Ok_0@ == u16s_at(
            data@,
            start as int,
            amount as nat,
        ),
{
    if data.len() < start + amount * 2 {
        return Err(SkillTreeUrlError::Eof);
    }
    let mut result: Vec<u16> = Vec::with_capacity(amount);
    let mut k: usize = 0;
    while k < amount
        invariant
            k <= amount,
            start + 2 * amount <= data@.len(),
            start + 2 * amount <= usize::MAX,
            result@ == u16s_at(data@, start as int, k as nat),
        decreases amount - k,
    {
        let index = start + k * 2;
        let value = (data[index] as u16) * 256 + data[index + 1] as u16;
        result.push(value);
        k = k + 1;
        assert(result@ =~= u16s_at(data@, start as int, k as nat));
    }
    Ok(result)
}

impl SkillTreeUrl {
    /// Decodes the bytes of a token.
    pub fn from_bytes(data: &[u8]) -> (r: Result<SkillTreeUrl, SkillTreeUrlError>)
        ensures
            view_result(r) == decode_bytes(data@),
    {
        if data.len() < 6 {
            return Err(SkillTreeUrlError::Eof);
        }
        let version: u32 = (data[0] as u32) * 0x100_0000 + (data[1] as u32) * 0x1_0000 + (
        data[2] as u32) * 0x100 + data[3] as u32;
        let class = data[4];
        let ascendancy = data[5] % 4;
        let alternate_ascendancy = (data[5] / 4) % 4;
        if version != 4 && version != 5 && version != 6 {
            return Err(SkillTreeUrlError::UnknownVersion(version));
        }
        if data.len() < 7 {
            return Err(SkillTreeUrlError::Eof);
        }
        // Version 4 spends byte 6 on a flag and implies the count; later
        // versions state the count there.
        let amount: usize = if version == 4 {
            (data.len() - 7) / 2
        } else {
            data[6] as usize
        };
        match read_u16s(data, 7, amount) {
            Ok(nodes) => Ok(SkillTreeUrl { class, ascendancy, alternate_ascendancy, nodes }),
            Err(e) => Err(e),
        }
    }

    /// Decodes a token: URL-safe base64 text whose bytes hold the selection.
    pub fn decode(s: &str) -> (r: Result<SkillTreeUrl, SkillTreeUrlError>)
        ensures
            match base64url_decoded(s@) {
                None => r == Err::<SkillTreeUrl, _>(SkillTreeUrlError::Decode),
                Some(d) => view_result(r) == decode_bytes(d),
            },
    {
        match decode_base64url(s) {
            Ok(data) => Self::from_bytes(data.as_slice()),
            Err(_) => Err(SkillTreeUrlError::Decode),
        }
    }
}

impl std::str::FromStr for SkillTreeUrl {
    type Err = SkillTreeUrlError;

    fn from_str(s: &str) -> Result<SkillTreeUrl, SkillTreeUrlError> {
        SkillTreeUrl::decode(s)
    }
}

/// Decoding the bytes of a version 5 token gives back the selection it was
/// made from, node order included.
pub proof fn lemma_round_trip_v5(u: SkillTreeUrlView)
    requires
        u.ascendancy < 4,
        u.alternate_ascendancy < 4,
        u.nodes.len() < 256,
    ensures
        decode_bytes(encode_v5(u)) == Ok::<SkillTreeUrlView, SkillTreeUrlError>(u),
{
    let d = encode_v5(u);
    assert(d.len() == 7 + 2 * u.nodes.len());
    assert(be_u32(d) == 5);
    let b5 = (u.ascendancy + 4 * u.alternate_ascendancy) as u8;
    assert(d[5] == b5);
    assert(b5 % 4 == u.ascendancy && (b5 / 4) % 4 == u.alternate_ascendancy) by (nonlinear_arith)
        requires
            b5 == u.ascendancy + 4 * u.alternate_ascendancy,
            u.ascendancy < 4,
            u.alternate_ascendancy < 4,
    ;
    let nodes = u16s_at(d, 7, u.nodes.len());
    assert forall|k: int| 0 <= k < u.nodes.len() implies nodes[k] == u.nodes[k] by {
        let v = u.nodes[k];
        assert(d[7 + 2 * k] == (v / 256) as u8);
        assert(d[7 + 2 * k + 1] == (v % 256) as u8);
        assert((v / 256) * 256 + v % 256 == v);
    }
    assert(nodes =~= u.nodes);
}

} // verus!
