//! Kitty graphics protocol encoding.
//!
//! Kitty accepts raw RGB pixels as base64, split across escape sequences.
//! Covers are already resampled to their exact size on screen, so the terminal
//! only has to place them at the cursor.

use vstd::prelude::*;

use crate::text;

verus! {

broadcast use vstd::string::group_string_axioms;

/// The image number. Numbers are not unique, and commands act on the newest
/// image that has theirs, which is always the current cover.
pub const IMAGE_NUMBER: u32 = 1_296_326_409;

/// Base64 bytes in one chunk at most.
pub const CHUNK: usize = 4096;

/// The base64 character of six bits.
pub open spec fn sextet(n: u8) -> u8 {
    if n < 26 {
        (65 + n) as u8
    } else if n < 52 {
        (71 + n) as u8
    } else if n < 62 {
        (n - 4) as u8
    } else if n == 62 {
        43
    } else {
        47
    }
}

fn sextet_char(n: u8) -> (r: u8)
    requires
        n < 64,
    ensures
        r == sextet(n),
{
    if n < 26 {
        65 + n
    } else if n < 52 {
        71 + n
    } else if n < 62 {
        n - 4
    } else if n == 62 {
        43
    } else {
        47
    }
}

/// Byte `i` of a text, and zero beyond its end.
pub open spec fn byte_at(bytes: Seq<u8>, i: int) -> u8 {
    if i < bytes.len() {
        bytes[i]
    } else {
        0
    }
}

/// The four base64 characters of three bytes. A byte that is not there leaves
/// `=` in place of the character that holds nothing but it.
pub open spec fn group_of(bytes: Seq<u8>) -> Seq<u8> {
    let a = byte_at(bytes, 0);
    let b = byte_at(bytes, 1);
    let c = byte_at(bytes, 2);
    seq![
        sextet(a / 4),
        sextet((a % 4 * 16 + b / 16) as u8),
        if bytes.len() > 1 {
            sextet((b % 16 * 4 + c / 64) as u8)
        } else {
            61
        },
        if bytes.len() > 2 {
            sextet(c % 64)
        } else {
            61
        },
    ]
}

/// The base64 of some bytes.
pub open spec fn base64_of(bytes: Seq<u8>) -> Seq<u8>
    decreases bytes.len(),
{
    if bytes.len() == 0 {
        Seq::empty()
    } else if bytes.len() <= 3 {
        group_of(bytes)
    } else {
        group_of(bytes.take(3)) + base64_of(bytes.skip(3))
    }
}

/// The base64 of some bytes.
pub fn base64(bytes: &[u8]) -> (r: Vec<u8>)
    ensures
        r@ == base64_of(bytes@),
{
    let len: usize = bytes.len();
    let mut out: Vec<u8> = Vec::new();
    let mut i: usize = 0;
    proof {
        assert(bytes@.skip(0) =~= bytes@);
    }
    while i < len
        invariant
            i <= len == bytes@.len(),
            out@ + base64_of(bytes@.skip(i as int)) =~= base64_of(bytes@),
        decreases len - i,
    {
        let ghost rest = bytes@.skip(i as int);
        let ghost before = out@;
        let left: usize = len - i;
        let a: u8 = bytes[i];
        let b: u8 = if left > 1 {
            bytes[i + 1]
        } else {
            0
        };
        let c: u8 = if left > 2 {
            bytes[i + 2]
        } else {
            0
        };
        out.push(sextet_char(a / 4));
        out.push(sextet_char(a % 4 * 16 + b / 16));
        out.push(
            if left > 1 {
                sextet_char(b % 16 * 4 + c / 64)
            } else {
                61
            },
        );
        out.push(
            if left > 2 {
                sextet_char(c % 64)
            } else {
                61
            },
        );
        let step: usize = if left < 3 {
            left
        } else {
            3
        };
        proof {
            let chunk = rest.take(step as int);
            assert(byte_at(chunk, 0) == a);
            assert(byte_at(chunk, 1) == b);
            assert(byte_at(chunk, 2) == c);
            assert(out@ =~= before + group_of(chunk));
            assert(rest.skip(step as int) =~= bytes@.skip(i + step));
            if rest.len() <= 3 {
                assert(chunk =~= rest);
                assert(rest.skip(step as int) =~= Seq::empty());
            }
            assert(base64_of(rest) =~= group_of(chunk) + base64_of(rest.skip(step as int)));
        }
        i += step;
    }
    out
}

/// What stands in front of a chunk: of the first, the command with all that it
/// says of the image, and of every chunk, whether more follow.
pub open spec fn head_of(
    first: bool,
    more: bool,
    width: u32,
    height: u32,
    cols: u16,
    rows: u16,
) -> Seq<char> {
    let flag = if more {
        "1"@
    } else {
        "0"@
    };
    if first {
        "\x1b_Ga=T,f=24,s="@ + text::decimal_of(width as nat) + ",v="@ + text::decimal_of(
            height as nat,
        ) + ",c="@ + text::decimal_of(cols as nat) + ",r="@ + text::decimal_of(rows as nat)
            + ",C=1,I="@ + text::decimal_of(IMAGE_NUMBER as nat) + ",q=2,m="@ + flag + ";"@
    } else {
        "\x1b_Gm="@ + flag + ";"@
    }
}

/// The bytes of a text.
pub open spec fn bytes_of(s: Seq<char>) -> Seq<u8> {
    vstd::utf8::encode_utf8(s)
}

/// The chunks of base64 from `from` on, each with its head and its end.
pub open spec fn chunks_of(
    data: Seq<u8>,
    from: int,
    width: u32,
    height: u32,
    cols: u16,
    rows: u16,
) -> Seq<u8>
    decreases data.len() - from,
{
    if from < 0 || from >= data.len() {
        Seq::empty()
    } else {
        let more = from + CHUNK < data.len();
        let end = if more {
            from + CHUNK
        } else {
            data.len() as int
        };
        bytes_of(head_of(from == 0, more, width, height, cols, rows)) + data.subrange(from, end)
            + bytes_of("\x1b\\"@) + chunks_of(data, end, width, height, cols, rows)
    }
}

/// What stands in front of a chunk.
fn head(first: bool, more: bool, width: u32, height: u32, cols: u16, rows: u16) -> (r: String)
    ensures
        r@ == head_of(first, more, width, height, cols, rows),
{
    let flag = if more {
        "1"
    } else {
        "0"
    };
    if first {
        let mut r = "\x1b_Ga=T,f=24,s=".to_owned();
        r.append(text::decimal(width as u64).as_str());
        r.append(",v=");
        r.append(text::decimal(height as u64).as_str());
        r.append(",c=");
        r.append(text::decimal(cols as u64).as_str());
        r.append(",r=");
        r.append(text::decimal(rows as u64).as_str());
        r.append(",C=1,I=");
        r.append(text::decimal(IMAGE_NUMBER as u64).as_str());
        r.append(",q=2,m=");
        r.append(flag);
        r.append(";");
        r
    } else {
        text::join3("\x1b_Gm=", flag, ";")
    }
}

/// Encodes raw 24-bit RGB pixels as a command that transmits and shows them in
/// so many columns and rows.
pub fn encode(rgb: &[u8], width: u32, height: u32, cols: u16, rows: u16) -> (r: Vec<u8>)
    ensures
        r@ == chunks_of(base64_of(rgb@), 0, width, height, cols, rows),
{
    let data = base64(rgb);
    let len: usize = data.len();
    let mut out: Vec<u8> = Vec::new();
    let mut from: usize = 0;
    while from < len
        invariant
            from <= len == data@.len(),
            out@ + chunks_of(data@, from as int, width, height, cols, rows) =~= chunks_of(
                data@,
                0,
                width,
                height,
                cols,
                rows,
            ),
        decreases len - from,
    {
        let ghost before = out@;
        let more = CHUNK < len - from;
        let end: usize = if more {
            from + CHUNK
        } else {
            len
        };
        let front = head(from == 0, more, width, height, cols, rows);
        out.extend_from_slice(front.as_str().as_bytes());
        let chunk = text::bytes_part(&data, from, end);
        out.extend_from_slice(&chunk);
        out.extend_from_slice("\x1b\\".as_bytes());
        proof {
            assert(out@ =~= before + bytes_of(front@) + data@.subrange(from as int, end as int)
                + bytes_of("\x1b\\"@));
        }
        from = end;
    }
    out
}

/// Deletes the image and all of its placements.
pub fn delete() -> (r: Vec<u8>)
    ensures
        r@ == bytes_of(
            "\x1b_Ga=d,d=N,I="@ + text::decimal_of(IMAGE_NUMBER as nat) + ",q=2;\x1b\\"@,
        ),
{
    let number = text::decimal(IMAGE_NUMBER as u64);
    let said = text::join3("\x1b_Ga=d,d=N,I=", number.as_str(), ",q=2;\x1b\\");
    let mut out: Vec<u8> = Vec::new();
    out.extend_from_slice(said.as_str().as_bytes());
    proof {
        assert(out@ =~= bytes_of(said@));
    }
    out
}

/// What six bits a base64 character stands for.
pub open spec fn sextet_value(c: u8) -> u8 {
    if 65 <= c <= 90 {
        (c - 65) as u8
    } else if 97 <= c <= 122 {
        (c - 71) as u8
    } else if 48 <= c <= 57 {
        (c + 4) as u8
    } else if c == 43 {
        62
    } else {
        63
    }
}

/// The bytes that a run of base64 stands for.
pub open spec fn base64_value(data: Seq<u8>) -> Seq<u8>
    decreases data.len(),
{
    if data.len() < 4 {
        Seq::empty()
    } else {
        let a = sextet_value(data[0]);
        let b = sextet_value(data[1]);
        let c = sextet_value(data[2]);
        let d = sextet_value(data[3]);
        let first = seq![(a * 4 + b / 16) as u8];
        let second = if data[2] == 61 {
            first
        } else {
            first.push((b % 16 * 16 + c / 4) as u8)
        };
        let third = if data[3] == 61 {
            second
        } else {
            second.push((c % 4 * 64 + d) as u8)
        };
        third + base64_value(data.skip(4))
    }
}

proof fn lemma_sextet(n: u8)
    requires
        n < 64,
    ensures
        sextet_value(sextet(n)) == n,
        sextet(n) != 61,
{
}

/// Base64 has four characters for every three bytes begun.
pub proof fn base64_comes_in_fours(bytes: Seq<u8>)
    ensures
        base64_of(bytes).len() == (bytes.len() + 2) / 3 * 4,
    decreases bytes.len(),
{
    if bytes.len() > 3 {
        base64_comes_in_fours(bytes.skip(3));
    }
}

/// What was encoded as base64 can be read back.
pub proof fn base64_can_be_read_back(bytes: Seq<u8>)
    ensures
        base64_value(base64_of(bytes)) == bytes,
    decreases bytes.len(),
{
    if bytes.len() > 0 {
        let head = if bytes.len() <= 3 {
            bytes
        } else {
            bytes.take(3)
        };
        let rest = if bytes.len() <= 3 {
            Seq::empty()
        } else {
            bytes.skip(3)
        };
        base64_can_be_read_back(rest);
        let a = byte_at(head, 0);
        let b = byte_at(head, 1);
        let c = byte_at(head, 2);
        lemma_sextet(a / 4);
        lemma_sextet((a % 4 * 16 + b / 16) as u8);
        lemma_sextet((b % 16 * 4 + c / 64) as u8);
        lemma_sextet(c % 64);
        let data = base64_of(bytes);
        assert(data =~= group_of(head) + base64_of(rest));
        assert(data.skip(4) =~= base64_of(rest));
        assert(base64_value(data) =~= head + base64_value(base64_of(rest)));
        assert(head + rest =~= bytes);
    } else {
        assert(base64_value(base64_of(bytes)) =~= bytes);
    }
}

/// An image goes out in pieces of 4096 characters, the last of which may be
/// shorter. They follow each other without a gap, only the first describes the
/// image, and each but the last says that more follow.
pub proof fn pieces_follow_each_other(
    data: Seq<u8>,
    from: int,
    width: u32,
    height: u32,
    cols: u16,
    rows: u16,
)
    requires
        0 <= from <= data.len(),
    ensures
        from == data.len() ==> chunks_of(data, from, width, height, cols, rows).len() == 0,
        from < data.len() && data.len() - from <= 4096 ==> chunks_of(
            data,
            from,
            width,
            height,
            cols,
            rows,
        ) == bytes_of(head_of(from == 0, false, width, height, cols, rows)) + data.skip(from)
            + bytes_of("\x1b\\"@),
        data.len() - from > 4096 ==> chunks_of(data, from, width, height, cols, rows) == bytes_of(
            head_of(from == 0, true, width, height, cols, rows),
        ) + data.subrange(from, from + 4096) + bytes_of("\x1b\\"@) + chunks_of(
            data,
            from + 4096,
            width,
            height,
            cols,
            rows,
        ),
{
    if from < data.len() && data.len() - from <= 4096 {
        assert(data.subrange(from, data.len() as int) =~= data.skip(from));
        assert(chunks_of(data, data.len() as int, width, height, cols, rows) =~= Seq::empty());
        assert(chunks_of(data, from, width, height, cols, rows) =~= bytes_of(
            head_of(from == 0, false, width, height, cols, rows),
        ) + data.skip(from) + bytes_of("\x1b\\"@));
    }
}

/// The head of the first piece says how large the image is in pixels and in cells,
/// and every head whether more pieces follow.
pub proof fn heads_describe_the_image(width: u32, height: u32, cols: u16, rows: u16)
    ensures
        head_of(true, false, width, height, cols, rows) == "\x1b_Ga=T,f=24,s="@
            + text::decimal_of(width as nat) + ",v="@ + text::decimal_of(height as nat) + ",c="@
            + text::decimal_of(cols as nat) + ",r="@ + text::decimal_of(rows as nat) + ",C=1,I="@
            + text::decimal_of(IMAGE_NUMBER as nat) + ",q=2,m="@ + "0"@ + ";"@,
        head_of(true, true, width, height, cols, rows) == "\x1b_Ga=T,f=24,s="@ + text::decimal_of(
            width as nat,
        ) + ",v="@ + text::decimal_of(height as nat) + ",c="@ + text::decimal_of(cols as nat)
            + ",r="@ + text::decimal_of(rows as nat) + ",C=1,I="@ + text::decimal_of(
            IMAGE_NUMBER as nat,
        ) + ",q=2,m="@ + "1"@ + ";"@,
        head_of(false, true, width, height, cols, rows) == "\x1b_Gm="@ + "1"@ + ";"@,
        head_of(false, false, width, height, cols, rows) == "\x1b_Gm="@ + "0"@ + ";"@,
{
}

/// The characters of base64 are the capitals, the small letters, the digits, the
/// plus and the slash, in this order.
pub proof fn base64_has_its_alphabet(n: u8)
    requires
        n < 64,
    ensures
        n < 26 ==> sextet(n) as char == ('A' as u32 + n) as char,
        26 <= n < 52 ==> sextet(n) as char == ('a' as u32 + (n - 26)) as char,
        52 <= n < 62 ==> sextet(n) as char == ('0' as u32 + (n - 52)) as char,
        n == 62 ==> sextet(n) as char == '+',
        n == 63 ==> sextet(n) as char == '/',
{
}

} // verus!
