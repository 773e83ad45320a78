//! Escape sequences in a stream of bytes, as mathematics.

use vstd::prelude::*;

use crate::protocol::{IAC, TelnetRequest};

verus! {

/// How far the input is into an escape sequence.
#[derive(Debug, Clone, Copy, PartialEq, Eq, Structural)]
pub enum TelnetInputState {
    /// Outside any escape sequence.
    Normal,
    /// Behind an escape.
    Escape,
    /// Got request. Need argument.
    Request(TelnetRequest),
}

/// What a stretch of telnet input means.
#[verifier::ext_equal]
pub struct Decoded {
    /// How far the input is afterwards.
    pub state: TelnetInputState,
    /// The data in it.
    pub data: Seq<u8>,
    /// The arguments of the requests in it.
    pub options: Seq<u8>,
}

/// The meaning of one byte.
pub open spec fn decode_byte(state: TelnetInputState, byte: u8) -> Decoded {
    match state {
        TelnetInputState::Normal => if byte == IAC {
            Decoded { state: TelnetInputState::Escape, data: seq![], options: seq![] }
        } else {
            Decoded { state, data: seq![byte], options: seq![] }
        },
        TelnetInputState::Escape => match TelnetRequest::of_code(byte) {
            Some(req) => Decoded {
                state: TelnetInputState::Request(req),
                data: seq![],
                options: seq![],
            },
            None => Decoded {
                state: TelnetInputState::Normal,
                data: if byte == IAC {
                    seq![IAC]
                } else {
                    seq![]
                },
                options: seq![],
            },
        },
        TelnetInputState::Request(_) => Decoded {
            state: TelnetInputState::Normal,
            data: seq![],
            options: seq![byte],
        },
    }
}

/// The meaning of a stretch of input: an escaped escape is a data byte, a request
/// asks for the option in its argument, any other command means nothing.
pub open spec fn decode(state: TelnetInputState, bytes: Seq<u8>) -> Decoded
    decreases bytes.len(),
{
    if bytes.len() == 0 {
        Decoded { state, data: seq![], options: seq![] }
    } else {
        let first = decode_byte(state, bytes[0]);
        let rest = decode(first.state, bytes.skip(1));
        Decoded {
            state: rest.state,
            data: first.data + rest.data,
            options: first.options + rest.options,
        }
    }
}

/// Data as it goes over the wire: every byte that looks like an escape is sent twice.
pub open spec fn encode(data: Seq<u8>) -> Seq<u8>
    decreases data.len(),
{
    if data.len() == 0 {
        seq![]
    } else if data[0] == IAC {
        seq![IAC, IAC] + encode(data.skip(1))
    } else {
        seq![data[0]] + encode(data.skip(1))
    }
}

/// How many bytes come before the first escape.
pub open spec fn data_len(bytes: Seq<u8>) -> nat
    decreases bytes.len(),
{
    if bytes.len() == 0 || bytes[0] == IAC {
        0
    } else {
        1 + data_len(bytes.skip(1))
    }
}

/// Whether there is an escape in the bytes.
pub open spec fn has_escape(bytes: Seq<u8>) -> bool {
    data_len(bytes) < bytes.len()
}

/// [`data_len`] is the length of the longest prefix without an escape.
pub proof fn lemma_data_len(bytes: Seq<u8>)
    ensures
        data_len(bytes) <= bytes.len(),
        forall|i: int| 0 <= i < data_len(bytes) ==> bytes[i] != IAC,
        has_escape(bytes) ==> bytes[data_len(bytes) as int] == IAC,
    decreases bytes.len(),
{
    if bytes.len() > 0 && bytes[0] != IAC {
        let rest = bytes.skip(1);
        lemma_data_len(rest);
        assert forall|i: int| 0 <= i < data_len(bytes) implies bytes[i] != IAC by {
            if i > 0 {
                assert(rest[i - 1] == bytes[i]);
            }
        }
    }
}

/// [`data_len`] is determined by what it says of the bytes.
proof fn lemma_data_len_unique(bytes: Seq<u8>, n: nat)
    requires
        n <= bytes.len(),
        forall|i: int| 0 <= i < n ==> bytes[i] != IAC,
        n < bytes.len() ==> bytes[n as int] == IAC,
    ensures
        data_len(bytes) == n,
{
    lemma_data_len(bytes);
    if data_len(bytes) < n {
        assert(bytes[data_len(bytes) as int] != IAC);
    } else if n < data_len(bytes) {
        assert(bytes[n as int] != IAC);
    }
}

/// Of the data before the first escape, what is left when some of it is gone.
pub(crate) proof fn lemma_data_len_skip(bytes: Seq<u8>, n: nat)
    requires
        n <= data_len(bytes),
    ensures
        data_len(bytes.skip(n as int)) == data_len(bytes) - n,
{
    lemma_data_len(bytes);
    let rest = bytes.skip(n as int);
    let left = (data_len(bytes) - n) as nat;
    assert forall|i: int| 0 <= i < left implies rest[i] != IAC by {
        assert(rest[i] == bytes[i + n]);
    }
    lemma_data_len_unique(rest, left);
}

/// Finds the first escape: the number of bytes before it.
pub fn split_at_escape(bytes: &[u8]) -> (r: usize)
    ensures
        r == data_len(bytes@),
        r <= bytes@.len(),
        forall|i: int| 0 <= i < r ==> bytes@[i] != 255,
        r < bytes@.len() ==> bytes@[r as int] == 255,
{
    let mut i: usize = 0;
    while i < bytes.len() && bytes[i] != IAC
        invariant
            i <= bytes@.len(),
            forall|j: int| 0 <= j < i ==> bytes@[j] != IAC,
        decreases bytes@.len() - i,
    {
        i += 1;
    }
    proof {
        lemma_data_len_unique(bytes@, i as nat);
    }
    i
}

/// What comes before the first escape is all there is up to the first byte 255, whatever the
/// bytes are.
pub proof fn law_data_len(bytes: Seq<u8>, n: nat)
    ensures
        data_len(bytes) == n <==> {
            &&& n <= bytes.len()
            &&& forall|i: int| 0 <= i < n ==> bytes[i] != 255
            &&& n < bytes.len() ==> bytes[n as int] == 255
        },
{
    lemma_data_len(bytes);
    if n <= bytes.len() && (forall|i: int| 0 <= i < n ==> bytes[i] != 255) && (n < bytes.len()
        ==> bytes[n as int] == 255) {
        lemma_data_len_unique(bytes, n);
    }
}

/// What a byte means, wherever it comes. Outside an escape sequence, 255 begins one and any
/// other byte is data. Behind an escape, the bytes from 251 to 254 are requests, 255 is data,
/// and any other byte means nothing. The byte behind a request is the option that it is about,
/// whatever byte it is. No byte at all means nothing.
pub proof fn law_decode_byte(state: TelnetInputState, byte: u8)
    ensures
        ({
            let meaning = decode(state, seq![byte]);
            &&& meaning.data == (if (state is Normal && byte != 255) || (state is Escape && byte
                == 255) {
                seq![byte]
            } else {
                seq![]
            })
            &&& meaning.options == (if state is Request {
                seq![byte]
            } else {
                seq![]
            })
            &&& meaning.state is Escape <==> state is Normal && byte == 255
            &&& meaning.state is Request <==> state is Escape && 251 <= byte <= 254
            &&& meaning.state matches TelnetInputState::Request(req) ==> req.spec_code() == byte
        }),
        decode(state, seq![]) == (Decoded { state, data: seq![], options: seq![] }),
{
    let rest = seq![byte].skip(1);
    assert(rest =~= seq![]);
    reveal_with_fuel(decode, 2);
    let first = decode_byte(state, byte);
    assert(first.data + decode(first.state, rest).data =~= first.data);
    assert(first.options + decode(first.state, rest).options =~= first.options);
}

/// Data goes over the wire byte by byte: 255 is sent twice, any other byte once and as it is.
pub proof fn law_encode_byte(byte: u8)
    ensures
        encode(seq![byte]) == (if byte == 255 {
            seq![255u8, 255u8]
        } else {
            seq![byte]
        }),
{
    assert(seq![byte].skip(1) =~= seq![]);
    reveal_with_fuel(encode, 2);
}

/// Input that comes in two pieces means what it means in one.
pub proof fn law_decode_in_pieces(state: TelnetInputState, first: Seq<u8>, second: Seq<u8>)
    ensures
        decode(state, first + second).state == decode(decode(state, first).state, second).state,
        decode(state, first + second).data == decode(state, first).data + decode(
            decode(state, first).state,
            second,
        ).data,
        decode(state, first + second).options == decode(state, first).options + decode(
            decode(state, first).state,
            second,
        ).options,
    decreases first.len(),
{
    if first.len() == 0 {
        assert(first + second =~= second);
    } else {
        let next = decode_byte(state, first[0]).state;
        law_decode_in_pieces(next, first.skip(1), second);
        assert((first + second).skip(1) =~= first.skip(1) + second);
    }
}

/// Encoded data decodes to itself.
pub proof fn law_encode_decode(data: Seq<u8>)
    ensures
        decode(TelnetInputState::Normal, encode(data)) == (Decoded {
            state: TelnetInputState::Normal,
            data,
            options: seq![],
        }),
    decreases data.len(),
{
    if data.len() > 0 {
        let rest = data.skip(1);
        law_encode_decode(rest);
        assert(data =~= seq![data[0]] + rest);
        if data[0] == IAC {
            lemma_decode_escaped();
            law_decode_in_pieces(TelnetInputState::Normal, seq![IAC, IAC], encode(rest));
        } else {
            lemma_decode_plain(seq![data[0]]);
            law_decode_in_pieces(TelnetInputState::Normal, seq![data[0]], encode(rest));
        }
    }
}

/// Two pieces of data are encoded one after the other.
pub proof fn law_encode_in_pieces(first: Seq<u8>, second: Seq<u8>)
    ensures
        encode(first + second) == encode(first) + encode(second),
    decreases first.len(),
{
    if first.len() == 0 {
        assert(first + second =~= second);
    } else {
        law_encode_in_pieces(first.skip(1), second);
        assert((first + second).skip(1) =~= first.skip(1) + second);
    }
}

/// Data without an escape means itself.
pub(crate) proof fn lemma_decode_plain(data: Seq<u8>)
    requires
        forall|i: int| 0 <= i < data.len() ==> data[i] != IAC,
    ensures
        decode(TelnetInputState::Normal, data) == (Decoded {
            state: TelnetInputState::Normal,
            data,
            options: seq![],
        }),
    decreases data.len(),
{
    if data.len() > 0 {
        let rest = data.skip(1);
        assert forall|i: int| 0 <= i < rest.len() implies rest[i] != IAC by {
            assert(rest[i] == data[i + 1]);
        }
        lemma_decode_plain(rest);
        assert(data =~= seq![data[0]] + rest);
    }
}

/// Data without an escape is sent as it is.
pub(crate) proof fn lemma_encode_plain(data: Seq<u8>)
    requires
        forall|i: int| 0 <= i < data.len() ==> data[i] != IAC,
    ensures
        encode(data) == data,
    decreases data.len(),
{
    if data.len() > 0 {
        let rest = data.skip(1);
        assert forall|i: int| 0 <= i < rest.len() implies rest[i] != IAC by {
            assert(rest[i] == data[i + 1]);
        }
        lemma_encode_plain(rest);
        assert(data =~= seq![data[0]] + rest);
    }
}

/// Two escapes mean one byte of data.
pub(crate) proof fn lemma_decode_escaped()
    ensures
        decode(TelnetInputState::Normal, seq![IAC, IAC]) == (Decoded {
            state: TelnetInputState::Normal,
            data: seq![IAC],
            options: seq![],
        }),
        encode(seq![IAC]) == seq![IAC, IAC],
{
    let escapes = seq![IAC, IAC];
    assert(escapes.skip(1) =~= seq![IAC]);
    assert(seq![IAC].skip(1) =~= seq![]);
    reveal_with_fuel(decode, 3);
    reveal_with_fuel(encode, 2);
    assert(escapes.skip(1).skip(1) =~= seq![]);
}

} // verus!
