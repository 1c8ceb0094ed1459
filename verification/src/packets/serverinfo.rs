//! Packets by which a game server describes itself.

use vstd::prelude::*;
use crate::wire::{
    bytes16, byte_char, char_byte, is_latin1, latin1, latin1_string, le16, lemma_bytes16_of_le16,
    lemma_latin1_of_low_bytes, lemma_le16_of_bytes16, lemma_low_bytes_of_latin1, low_bytes,
    push_char, read_u16, write_low_bytes, write_u16,
};
use super::{PacketDecodeError, PacketEncodeError};

verus! {

/// Names the port on which a game server answers HTTP.
///
/// Payload: `http_port`, two bytes, little-endian.
#[derive(Clone, Copy, Debug, PartialEq, Eq, Structural)]
pub struct HttpInfoPacket {
    pub http_port: u16,
}

impl View for HttpInfoPacket {
    type V = HttpInfoPacket;

    open spec fn view(&self) -> HttpInfoPacket {
        *self
    }
}

impl HttpInfoPacket {
    /// What a payload decodes to.
    pub open spec fn spec_from_raw(data: Seq<u8>) -> Result<HttpInfoPacket, PacketDecodeError> {
        if data.len() != 2 {
            Err(PacketDecodeError::InvalidDataSize { expected: 2, actual: data.len() as usize })
        } else {
            Ok(HttpInfoPacket { http_port: le16(data) as u16 })
        }
    }

    /// The payload of a packet.
    pub open spec fn spec_to_raw(v: HttpInfoPacket) -> Seq<u8> {
        bytes16(v.http_port)
    }

    /// Decodes a payload.
    pub fn from_raw(packet_data: Vec<u8>) -> (r: Result<Self, PacketDecodeError>)
        ensures
            r == Self::spec_from_raw(packet_data@),
    {
        let data_len = packet_data.len();
        if data_len != 2 {
            return Err(PacketDecodeError::InvalidDataSize { expected: 2, actual: data_len });
        }
        let http_port = read_u16(packet_data.as_slice(), 0);
        assert(packet_data@.subrange(0, 2) =~= packet_data@);
        Ok(Self { http_port })
    }

    /// Encodes the packet.
    pub fn to_raw(self) -> (r: Result<Vec<u8>, PacketEncodeError>)
        ensures
            r matches Ok(raw) && raw@ == Self::spec_to_raw(self),
    {
        let mut buf: Vec<u8> = Vec::new();
        write_u16(&mut buf, self.http_port);
        assert(buf@ =~= bytes16(self.http_port));
        Ok(buf)
    }

    /// Decoding the payload of a packet gives the packet.
    pub proof fn lemma_round_trip(v: HttpInfoPacket)
        ensures
            Self::spec_from_raw(Self::spec_to_raw(v)) == Ok::<_, PacketDecodeError>(v),
    {
        lemma_le16_of_bytes16(v.http_port);
    }

    /// A payload that decodes is the payload of what it decodes to.
    pub proof fn lemma_payload_unique(data: Seq<u8>)
        requires
            Self::spec_from_raw(data) is Ok,
        ensures
            Self::spec_to_raw(Self::spec_from_raw(data)->Ok_0) == data,
    {
        lemma_bytes16_of_le16(data);
    }
}

/// The number of characters of `chars` before its first `;`: all of them
/// where it has none.
pub open spec fn name_len(chars: Seq<char>) -> nat
    decreases chars.len(),
{
    if chars.len() == 0 || chars[0] == ';' {
        0
    } else {
        1 + name_len(chars.drop_first())
    }
}

/// The names that a `;`-joined list spells. Every `;` ends a name, which may
/// be empty; what follows the last `;` is a name unless it is empty.
pub open spec fn split_names(chars: Seq<char>) -> Seq<Seq<char>>
    decreases chars.len(),
{
    let n = name_len(chars) as int;
    if n >= chars.len() {
        if chars.len() == 0 {
            Seq::empty()
        } else {
            seq![chars]
        }
    } else {
        seq![chars.take(n)] + split_names(chars.skip(n + 1))
    }
}

/// The names joined by `;`.
pub open spec fn join_names(names: Seq<Seq<char>>) -> Seq<char>
    decreases names.len(),
{
    if names.len() == 0 {
        Seq::empty()
    } else if names.len() == 1 {
        names[0]
    } else {
        names[0] + seq![';'] + join_names(names.drop_first())
    }
}

/// No character of `chars` is a `;`.
pub open spec fn no_separator(chars: Seq<char>) -> bool {
    forall|i: int| 0 <= i < chars.len() ==> #[trigger] chars[i] != ';'
}

/// The texts of some strings, in order.
pub open spec fn texts(strings: Seq<String>) -> Seq<Seq<char>> {
    Seq::new(strings.len(), |i: int| strings[i]@)
}

/// `name_len` is the position of the first `;`, or the length.
pub proof fn lemma_name_len(chars: Seq<char>, n: int)
    requires
        0 <= n <= chars.len(),
        no_separator(chars.take(n)),
        n < chars.len() ==> chars[n] == ';',
    ensures
        name_len(chars) == n,
    decreases n,
{
    if n > 0 {
        assert(chars.take(n)[0] == chars[0]);
        let rest = chars.drop_first();
        assert forall|i: int| 0 <= i < n - 1 implies #[trigger] rest.take(n - 1)[i] != ';' by {
            assert(rest.take(n - 1)[i] == chars.take(n)[i + 1]);
        }
        lemma_name_len(rest, n - 1);
    }
}

/// Joining one more name appends a `;` and the name, unless it is the first.
pub proof fn lemma_join_push(names: Seq<Seq<char>>, name: Seq<char>)
    ensures
        join_names(names.push(name)) == if names.len() == 0 {
            name
        } else {
            join_names(names) + seq![';'] + name
        },
    decreases names.len(),
{
    let pushed = names.push(name);
    if names.len() == 0 {
        assert(pushed[0] == name);
    } else {
        assert(pushed[0] == names[0]);
        assert(pushed.drop_first() =~= names.drop_first().push(name));
        lemma_join_push(names.drop_first(), name);
        if names.len() == 1 {
            assert(join_names(names.drop_first()) =~= Seq::<char>::empty());
            assert(join_names(pushed) =~= names[0] + seq![';'] + name);
        } else {
            assert(join_names(pushed) =~= join_names(names) + seq![';'] + name);
        }
    }
}

/// Splitting what was joined gives the names, where no name holds a `;` and
/// the last name is not empty.
pub proof fn lemma_split_join(names: Seq<Seq<char>>)
    requires
        forall|i: int| 0 <= i < names.len() ==> no_separator(#[trigger] names[i]),
        names.len() > 0 ==> names.last().len() > 0,
    ensures
        split_names(join_names(names)) == names,
    decreases names.len(),
{
    let joined = join_names(names);
    if names.len() == 0 {
    } else if names.len() == 1 {
        assert(joined.take(joined.len() as int) =~= joined);
        lemma_name_len(joined, joined.len() as int);
        assert(split_names(joined) =~= names);
    } else {
        let first = names[0];
        let rest = names.drop_first();
        let n = first.len() as int;
        assert(joined.take(n) =~= first);
        assert(joined[n] == ';');
        lemma_name_len(joined, n);
        assert(joined.skip(n + 1) =~= join_names(rest));
        assert forall|i: int| 0 <= i < rest.len() implies no_separator(#[trigger] rest[i]) by {
            assert(rest[i] == names[i + 1]);
        }
        assert(rest.last() == names.last());
        lemma_split_join(rest);
        assert(split_names(joined) =~= names);
    }
}

/// What is joined of one-byte characters is of one-byte characters.
pub proof fn lemma_join_latin1(names: Seq<Seq<char>>)
    requires
        forall|i: int| 0 <= i < names.len() ==> is_latin1(#[trigger] names[i]),
    ensures
        is_latin1(join_names(names)),
    decreases names.len(),
{
    if names.len() > 1 {
        let rest = names.drop_first();
        assert forall|i: int| 0 <= i < rest.len() implies is_latin1(#[trigger] rest[i]) by {
            assert(rest[i] == names[i + 1]);
        }
        lemma_join_latin1(rest);
        let joined = join_names(names);
        let n = names[0].len();
        assert(is_latin1(names[0]));
        assert forall|i: int| 0 <= i < joined.len() implies (#[trigger] joined[i]) as u32
            <= 0xff by {
            if i < n {
                assert(joined[i] == names[0][i]);
            } else if i > n {
                assert(joined[i] == join_names(rest)[i - n - 1]);
            }
        }
    } else if names.len() == 1 {
        assert(is_latin1(names[0]));
    }
}

/// The mods that a game server runs.
///
/// Payload: the names joined by `;`, one byte for each character.
#[derive(Clone, Debug, PartialEq, Eq)]
pub struct ModListPacket {
    pub mods: Vec<String>,
}

/// A `ModListPacket` with each name as a sequence of characters.
pub struct ModListPacketView {
    pub mods: Seq<Seq<char>>,
}

impl View for ModListPacket {
    type V = ModListPacketView;

    open spec fn view(&self) -> ModListPacketView {
        ModListPacketView { mods: texts(self.mods@) }
    }
}

impl ModListPacket {
    /// What a payload decodes to: every payload decodes.
    pub open spec fn spec_from_raw(data: Seq<u8>) -> ModListPacketView {
        ModListPacketView { mods: split_names(latin1(data)) }
    }

    /// The payload of a packet. Of each character the low eight bits are
    /// written.
    pub open spec fn spec_to_raw(v: ModListPacketView) -> Seq<u8> {
        low_bytes(join_names(v.mods))
    }

    /// Decodes a payload.
    pub fn from_raw(packet_data: Vec<u8>) -> (r: Result<Self, PacketDecodeError>)
        ensures
            r matches Ok(p) && p@ == Self::spec_from_raw(packet_data@),
    {
        let ghost chars = latin1(packet_data@);
        let mut mods: Vec<String> = Vec::new();
        let mut mod_name = String::new();
        let ghost mut start: int = 0;
        let mut i: usize = 0;
        assert(chars.skip(0) =~= chars);
        while i < packet_data.len()
            invariant
                chars == latin1(packet_data@),
                0 <= start <= i <= packet_data@.len(),
                mod_name@ == chars.subrange(start, i as int),
                no_separator(mod_name@),
                split_names(chars) == texts(mods@) + split_names(chars.skip(start)),
            decreases packet_data@.len() - i,
        {
            let c = packet_data[i] as char;
            let ghost rest = chars.skip(start);
            if c == ';' {
                proof {
                    let n = i - start;
                    assert(rest.take(n) =~= mod_name@);
                    assert(rest[n] == ';');
                    lemma_name_len(rest, n);
                    assert(rest.skip(n + 1) =~= chars.skip(i + 1));
                    assert(texts(mods@.push(mod_name)) =~= texts(mods@) + seq![mod_name@]);
                    assert(split_names(chars) =~= texts(mods@.push(mod_name)) + split_names(
                        chars.skip(i + 1),
                    ));
                    start = i + 1;
                }
                mods.push(mod_name);
                mod_name = String::new();
                assert(mod_name@ =~= chars.subrange(start, i + 1));
            } else {
                push_char(&mut mod_name, c);
                assert(mod_name@ =~= chars.subrange(start, i + 1));
            }
            i += 1;
        }
        proof {
            let rest = chars.skip(start);
            assert(rest =~= mod_name@);
            assert(rest.take(rest.len() as int) =~= rest);
            lemma_name_len(rest, rest.len() as int);
        }
        if !mod_name.as_str().is_empty() {
            proof {
                assert(texts(mods@.push(mod_name)) =~= texts(mods@) + seq![mod_name@]);
            }
            mods.push(mod_name);
        } else {
            assert(texts(mods@) + Seq::<Seq<char>>::empty() =~= texts(mods@));
        }
        Ok(Self { mods })
    }

    /// Encodes the packet.
    pub fn to_raw(self) -> (r: Result<Vec<u8>, PacketEncodeError>)
        ensures
            r matches Ok(raw) && raw@ == Self::spec_to_raw(self@),
    {
        let mut buf: Vec<u8> = Vec::new();
        let ghost names = texts(self.mods@);
        let mut i: usize = 0;
        assert(join_names(names.take(0)) =~= Seq::<char>::empty());
        while i < self.mods.len()
            invariant
                names == texts(self.mods@),
                i <= self.mods@.len(),
                buf@ == low_bytes(join_names(names.take(i as int))),
            decreases self.mods@.len() - i,
        {
            let ghost before = buf@;
            if i > 0 {
                buf.push(0x3b);
            }
            write_low_bytes(&mut buf, self.mods[i].as_str());
            proof {
                let done = names.take(i as int);
                assert(names.take(i + 1) =~= done.push(names[i as int]));
                lemma_join_push(done, names[i as int]);
                assert(char_byte(';') == 0x3b);
                if i > 0 {
                    assert(buf@ =~= low_bytes(join_names(done) + seq![';'] + names[i as int]));
                } else {
                    assert(buf@ =~= low_bytes(names[i as int]));
                }
            }
            i += 1;
        }
        assert(names.take(i as int) =~= names);
        Ok(buf)
    }

    /// Decoding the payload of a packet gives the packet, where no name
    /// holds a `;` or a character of more than one byte, and the last name
    /// is not empty.
    pub proof fn lemma_round_trip(v: ModListPacketView)
        requires
            forall|i: int|
                0 <= i < v.mods.len() ==> no_separator(#[trigger] v.mods[i]) && is_latin1(
                    v.mods[i],
                ),
            v.mods.len() > 0 ==> v.mods.last().len() > 0,
        ensures
            Self::spec_from_raw(Self::spec_to_raw(v)) == v,
    {
        lemma_join_latin1(v.mods);
        lemma_latin1_of_low_bytes(join_names(v.mods));
        lemma_split_join(v.mods);
    }
}

/// Tells the launcher which map to load.
///
/// Payload: `map_name`, one byte for each character.
#[derive(Clone, Debug, PartialEq, Eq)]
pub struct LoadMapPacket {
    pub map_name: String,
}

/// A `LoadMapPacket` with its text as a sequence of characters.
pub struct LoadMapPacketView {
    pub map_name: Seq<char>,
}

impl View for LoadMapPacket {
    type V = LoadMapPacketView;

    open spec fn view(&self) -> LoadMapPacketView {
        LoadMapPacketView { map_name: self.map_name@ }
    }
}

impl LoadMapPacket {
    /// What a payload decodes to: every payload decodes.
    pub open spec fn spec_from_raw(data: Seq<u8>) -> LoadMapPacketView {
        LoadMapPacketView { map_name: latin1(data) }
    }

    /// The payload of a packet. Of each character the low eight bits are
    /// written.
    pub open spec fn spec_to_raw(v: LoadMapPacketView) -> Seq<u8> {
        low_bytes(v.map_name)
    }

    /// Decodes a payload.
    pub fn from_raw(packet_data: Vec<u8>) -> (r: Result<Self, PacketDecodeError>)
        ensures
            r matches Ok(p) && p@ == Self::spec_from_raw(packet_data@),
    {
        assert(packet_data@.skip(0) =~= packet_data@);
        let map_name = latin1_string(packet_data.as_slice(), 0);
        Ok(Self { map_name })
    }

    /// Encodes the packet.
    pub fn to_raw(self) -> (r: Result<Vec<u8>, PacketEncodeError>)
        ensures
            r matches Ok(raw) && raw@ == Self::spec_to_raw(self@),
    {
        let mut buf: Vec<u8> = Vec::new();
        write_low_bytes(&mut buf, self.map_name.as_str());
        assert(buf@ =~= low_bytes(self.map_name@));
        Ok(buf)
    }

    /// Decoding the payload of a packet gives the packet, where each
    /// character of its name fits in one byte.
    pub proof fn lemma_round_trip(v: LoadMapPacketView)
        requires
            is_latin1(v.map_name),
        ensures
            Self::spec_from_raw(Self::spec_to_raw(v)) == v,
    {
        lemma_latin1_of_low_bytes(v.map_name);
    }

    /// A payload is the payload of what it decodes to.
    pub proof fn lemma_payload_unique(data: Seq<u8>)
        ensures
            Self::spec_to_raw(Self::spec_from_raw(data)) == data,
    {
        lemma_low_bytes_of_latin1(data);
    }
}

} // verus!
