//! The program's own icon as a Win32 resource file, for the linker to put
//! into the executable.
//!
//! A resource file is a flat list of records, low byte first and each on a
//! boundary of four bytes: the length of the data, the length of the header,
//! type, name, data version, memory flags, language, version and
//! characteristics, and the data. Type and name are a marker and a number
//! here. The file opens with a record that is empty.

use vstd::prelude::*;

use crate::bytes::{
    law_le32_comes_back, law_the_low_byte_comes_first, le16, le32, number_at, push_all, push_le16,
    push_le32,
};
use crate::icon::{
    bgra, law_every_shape_is_symmetric, nth_pixel, pixel, pixel_in, Status, APP, MAX_SIZE,
};

verus! {

/// Resource types: one image of an icon, and the group that ties the images
/// together.
pub const RT_ICON: u16 = 3;

pub const RT_GROUP_ICON: u16 = 14;

/// US English, which is what a resource without a language is stamped with.
pub const LANG_EN_US: u16 = 0x0409;

/// Says that a number follows where there could be a string.
pub const ORDINAL: u16 = 0xffff;

/// The memory flags that every resource file has for the two types.
pub const ICON_FLAGS: u16 = 0x1010;

pub const GROUP_FLAGS: u16 = 0x1030;

/// Every size that the shell is likely to ask for.
pub open spec fn sizes() -> Seq<u32> {
    seq![16, 20, 24, 32, 48, 64, 128, 256]
}

fn all_sizes() -> (r: Vec<u32>)
    ensures
        r@ == sizes(),
{
    let r: Vec<u32> = vec![16, 20, 24, 32, 48, 64, 128, 256];
    assert(r@ =~= sizes());
    r
}

/// `bytes`, and zeroes up to a boundary of four.
pub open spec fn padded(bytes: Seq<u8>) -> Seq<u8> {
    bytes + Seq::new(((4 - bytes.len() % 4) % 4) as nat, |i: int| 0u8)
}

/// The header of a record with a number for its type and for its name.
pub open spec fn record_header(ty: u16, name: u16, flags: u16, lang: u16, len: nat) -> Seq<u8> {
    le32(len) + le32(32) + le16(ORDINAL as nat) + le16(ty as nat) + le16(ORDINAL as nat) + le16(
        name as nat,
    ) + le32(0) + le16(flags as nat) + le16(lang as nat) + le32(0) + le32(0)
}

/// A file with one record more.
pub open spec fn with_record(
    file: Seq<u8>,
    ty: u16,
    name: u16,
    flags: u16,
    lang: u16,
    data: Seq<u8>,
) -> Seq<u8> {
    padded(file + record_header(ty, name, flags, lang, data.len()) + data)
}

/// Every record starts on a boundary of four bytes, and its header is as long
/// as it says.
pub proof fn law_records_are_aligned(
    file: Seq<u8>,
    ty: u16,
    name: u16,
    flags: u16,
    lang: u16,
    data: Seq<u8>,
)
    ensures
        with_record(file, ty, name, flags, lang, data).len() % 4 == 0,
        record_header(ty, name, flags, lang, data.len()).len() == 32,
{
}

/// Appends a record.
pub fn record(out: &mut Vec<u8>, ty: u16, name: u16, flags: u16, lang: u16, data: &[u8])
    ensures
        final(out)@ == with_record(old(out)@, ty, name, flags, lang, data@),
{
    let ghost before = out@;
    push_le32(out, data.len() as u64);
    push_le32(out, 32);
    push_le16(out, ORDINAL);
    push_le16(out, ty);
    push_le16(out, ORDINAL);
    push_le16(out, name);
    push_le32(out, 0);
    push_le16(out, flags);
    push_le16(out, lang);
    push_le32(out, 0);
    push_le32(out, 0);
    assert(out@ =~= before + record_header(ty, name, flags, lang, data@.len()));
    push_all(out, data);
    let ghost full = out@;
    let ghost mut zeroes: int = 0;
    while out.len() % 4 != 0
        invariant
            0 <= zeroes < 4,
            out@ == full + Seq::new(zeroes as nat, |i: int| 0u8),
            zeroes <= (4 - full.len() % 4) % 4,
        decreases 4 - zeroes,
    {
        out.push(0);
        proof {
            zeroes = zeroes + 1;
        }
        assert(out@ =~= full + Seq::new(zeroes as nat, |i: int| 0u8));
    }
    assert(out@ =~= padded(full));
}

/// The header of an image. It claims twice the height, for it describes
/// colours and mask as one bitmap.
pub open spec fn bitmap_header(size: u32) -> Seq<u8> {
    le32(40) + le32(size as nat) + le32((2 * size) as nat) + le16(1) + le16(32) + le32(0) + le32(0)
        + le32(0) + le32(0) + le32(0) + le32(0)
}

/// One of a pixel's four bytes.
pub open spec fn channel(p: (u8, u8, u8, u8), c: int) -> u8 {
    if c == 0 {
        p.0
    } else if c == 1 {
        p.1
    } else if c == 2 {
        p.2
    } else {
        p.3
    }
}

/// A row of colours.
pub open spec fn colour_row(status: Status, size: u32, y: int) -> Seq<u8> {
    Seq::new((4 * size) as nat, |i: int| channel(pixel(status, size as int, i / 4, y), i % 4))
}

/// The `n` lowest rows of colours, the lowest first.
pub open spec fn colour_rows(status: Status, size: u32, n: nat) -> Seq<u8>
    decreases n,
{
    if n == 0 {
        Seq::empty()
    } else {
        colour_rows(status, size, (n - 1) as nat) + colour_row(status, size, size - n)
    }
}

/// What a pixel puts into the mask: nothing where it is drawn, and where it
/// leaves the background alone its own bit.
pub open spec fn mask_bit(status: Status, size: u32, x: int, y: int, bit: u8) -> int {
    if x < size && pixel(status, size as int, x, y).3 != 0 {
        0
    } else {
        bit as int
    }
}

/// Eight pixels of the mask, the leftmost in the highest bit.
pub open spec fn mask_byte(status: Status, size: u32, b: int, y: int) -> u8 {
    (mask_bit(status, size, 8 * b, y, 128) + mask_bit(status, size, 8 * b + 1, y, 64) + mask_bit(
        status,
        size,
        8 * b + 2,
        y,
        32,
    ) + mask_bit(status, size, 8 * b + 3, y, 16) + mask_bit(status, size, 8 * b + 4, y, 8) + mask_bit(
        status,
        size,
        8 * b + 5,
        y,
        4,
    ) + mask_bit(status, size, 8 * b + 6, y, 2) + mask_bit(status, size, 8 * b + 7, y, 1)) as u8
}

/// Bytes in a row of the mask, which ends on a boundary of four.
pub open spec fn stride(size: u32) -> nat {
    ((size + 31) / 32 * 4) as nat
}

/// A row of the mask.
pub open spec fn mask_row(status: Status, size: u32, y: int) -> Seq<u8> {
    Seq::new(stride(size), |b: int| mask_byte(status, size, b, y))
}

/// The `n` lowest rows of the mask, the lowest first.
pub open spec fn mask_rows(status: Status, size: u32, n: nat) -> Seq<u8>
    decreases n,
{
    if n == 0 {
        Seq::empty()
    } else {
        mask_rows(status, size, (n - 1) as nat) + mask_row(status, size, size - n)
    }
}

/// Upside down, every row of colours and of the mask is the one that it takes
/// the place of, so that it makes no difference which way round rows are read.
pub proof fn law_rows_are_the_same_either_way(status: Status, size: u32, y: int)
    ensures
        colour_row(status, size, size - 1 - y) == colour_row(status, size, y),
        mask_row(status, size, size - 1 - y) == mask_row(status, size, y),
{
    assert forall|x: int| #[trigger] pixel(status, size as int, x, size - 1 - y) == pixel(
        status,
        size as int,
        x,
        y,
    ) by {
        law_every_shape_is_symmetric(status, size as int, x, y);
    }
    assert(colour_row(status, size, size - 1 - y) =~= colour_row(status, size, y));
    assert(mask_row(status, size, size - 1 - y) =~= mask_row(status, size, y));
}

/// One image of the icon: header, colours and mask, the rows bottom-up.
pub open spec fn image(size: u32) -> Seq<u8> {
    bitmap_header(size) + colour_rows(APP, size, size as nat) + mask_rows(
        APP,
        size,
        size as nat,
    )
}

/// Whether these bytes are the drawing of a status.
pub open spec fn is_drawing(bytes: Seq<u8>, status: Status, size: u32) -> bool {
    &&& bytes.len() == 4 * size * size
    &&& forall|x: int, y: int|
        0 <= x < size && 0 <= y < size ==> #[trigger] pixel_in(bytes, size as int, x, y) == pixel(
            status,
            size as int,
            x,
            y,
        )
}

/// Where a pixel is in a drawing.
fn place(size: u32, x: u32, y: u32) -> (r: usize)
    requires
        x < size <= MAX_SIZE,
        y < size,
    ensures
        r == 4 * (y * size + x),
        r + 4 <= 4 * size * size,
{
    proof {
        assert(y * size + x < size * size) by (nonlinear_arith)
            requires
                x < size,
                y < size,
        ;
        assert(size * size <= 0x3fff_0001) by (nonlinear_arith)
            requires
                size <= 32767,
        ;
        assert(4 * (size * size) == 4 * size * size) by (nonlinear_arith);
    }
    (4 * (y * size + x)) as usize
}

fn pixel_bit(drawing: &Vec<u8>, status: Status, size: u32, x: u32, y: u32, bit: u8) -> (r: u8)
    requires
        size <= MAX_SIZE,
        y < size,
        is_drawing(drawing@, status, size),
    ensures
        r == mask_bit(status, size, x as int, y as int, bit),
{
    if x < size {
        let at: usize = place(size, x, y);
        proof {
            assert(pixel_in(drawing@, size as int, x as int, y as int) == pixel(
                status,
                size as int,
                x as int,
                y as int,
            ));
        }
        if drawing[at + 3] != 0 {
            return 0;
        }
    }
    bit
}

fn push_mask(out: &mut Vec<u8>, drawing: &Vec<u8>, status: Status, size: u32)
    requires
        size <= MAX_SIZE,
        is_drawing(drawing@, status, size),
    ensures
        final(out)@ == old(out)@ + mask_rows(status, size, size as nat),
{
    let ghost before = out@;
    let width: u32 = (size + 31) / 32 * 4;
    let mut rows: u32 = 0;
    assert(out@ =~= before + mask_rows(status, size, 0));
    while rows < size
        invariant
            rows <= size <= MAX_SIZE,
            width == stride(size),
            is_drawing(drawing@, status, size),
            out@ == before + mask_rows(status, size, rows as nat),
        decreases size - rows,
    {
        let y: u32 = size - rows - 1;
        let ghost so_far = out@;
        let ghost row = mask_row(status, size, y as int);
        let mut b: u32 = 0;
        assert(out@ =~= so_far + row.take(0));
        while b < width
            invariant
                b <= width,
                width == stride(size),
                y < size <= MAX_SIZE,
                is_drawing(drawing@, status, size),
                row == mask_row(status, size, y as int),
                out@ == so_far + row.take(b as int),
            decreases width - b,
        {
            let x: u32 = 8 * b;
            let byte: u8 = pixel_bit(drawing, status, size, x, y, 128) + pixel_bit(
                drawing,
                status,
                size,
                x + 1,
                y,
                64,
            ) + pixel_bit(drawing, status, size, x + 2, y, 32) + pixel_bit(
                drawing,
                status,
                size,
                x + 3,
                y,
                16,
            ) + pixel_bit(drawing, status, size, x + 4, y, 8) + pixel_bit(
                drawing,
                status,
                size,
                x + 5,
                y,
                4,
            ) + pixel_bit(drawing, status, size, x + 6, y, 2) + pixel_bit(
                drawing,
                status,
                size,
                x + 7,
                y,
                1,
            );
            out.push(byte);
            assert(byte == row[b as int]);
            b += 1;
            assert(out@ =~= so_far + row.take(b as int));
        }
        assert(row.take(b as int) =~= row);
        rows += 1;
        assert(out@ =~= before + mask_rows(status, size, rows as nat));
    }
}

fn push_colours(out: &mut Vec<u8>, drawing: &Vec<u8>, status: Status, size: u32)
    requires
        size <= MAX_SIZE,
        is_drawing(drawing@, status, size),
    ensures
        final(out)@ == old(out)@ + colour_rows(status, size, size as nat),
{
    let ghost before = out@;
    let mut rows: u32 = 0;
    assert(out@ =~= before + colour_rows(status, size, 0));
    while rows < size
        invariant
            rows <= size <= MAX_SIZE,
            is_drawing(drawing@, status, size),
            out@ == before + colour_rows(status, size, rows as nat),
        decreases size - rows,
    {
        let y: u32 = size - rows - 1;
        let ghost so_far = out@;
        let ghost row = colour_row(status, size, y as int);
        let mut x: u32 = 0;
        assert(out@ =~= so_far + row.take(0));
        while x < size
            invariant
                x <= size,
                y < size <= MAX_SIZE,
                is_drawing(drawing@, status, size),
                row == colour_row(status, size, y as int),
                out@ == so_far + row.take(4 * x),
            decreases size - x,
        {
            let at: usize = place(size, x, y);
            let ghost p = pixel_in(drawing@, size as int, x as int, y as int);
            assert(p == pixel(status, size as int, x as int, y as int));
            out.push(drawing[at]);
            out.push(drawing[at + 1]);
            out.push(drawing[at + 2]);
            out.push(drawing[at + 3]);
            assert(row[4 * x] == p.0 && row[4 * x + 1] == p.1 && row[4 * x + 2] == p.2 && row[4 * x
                + 3] == p.3);
            x += 1;
            assert(out@ =~= so_far + row.take(4 * x));
        }
        assert(row.take(4 * x) =~= row);
        rows += 1;
        assert(out@ =~= before + colour_rows(status, size, rows as nat));
    }
}

/// The mask of a drawing: one bit for each pixel, which is 1 where the
/// background is left alone, the rows bottom-up. As every shape is symmetric,
/// they are the same from the top down.
pub fn mask(status: Status, size: u32) -> (r: Vec<u8>)
    requires
        size <= MAX_SIZE,
    ensures
        r@ == mask_rows(status, size, size as nat),
{
    let drawing = bgra(size, status);
    let mut out: Vec<u8> = Vec::new();
    push_mask(&mut out, &drawing, status, size);
    assert(out@ =~= mask_rows(status, size, size as nat));
    out
}

/// One image of the program's icon.
pub fn dib(size: u32) -> (r: Vec<u8>)
    requires
        size <= MAX_SIZE,
    ensures
        r@ == image(size),
{
    let drawing = bgra(size, APP);
    let mut out: Vec<u8> = Vec::new();
    push_le32(&mut out, 40);
    push_le32(&mut out, size as u64);
    push_le32(&mut out, 2 * size as u64);
    push_le16(&mut out, 1);
    push_le16(&mut out, 32);
    push_le32(&mut out, 0);
    push_le32(&mut out, 0);
    push_le32(&mut out, 0);
    push_le32(&mut out, 0);
    push_le32(&mut out, 0);
    push_le32(&mut out, 0);
    assert(out@ =~= bitmap_header(size));
    push_colours(&mut out, &drawing, APP, size);
    push_mask(&mut out, &drawing, APP, size);
    out
}

/// The entry of an image in the group: its width and height in a byte each,
/// of which 256 is written as 0, no palette, one plane of 32 bits, and the
/// length and the number of the image.
pub open spec fn group_entry(size: u32, number: u16) -> Seq<u8> {
    let side = if size >= 256 {
        0u8
    } else {
        size as u8
    };
    seq![side, side, 0, 0] + le16(1) + le16(32) + le32(image(size).len()) + le16(number as nat)
}

fn push_entry(group: &mut Vec<u8>, size: u32, number: u16, len: usize)
    requires
        len == image(size).len(),
    ensures
        final(group)@ == old(group)@ + group_entry(size, number),
{
    let side: u8 = if size >= 256 {
        0
    } else {
        size as u8
    };
    let ghost before = group@;
    group.push(side);
    group.push(side);
    group.push(0);
    group.push(0);
    assert(group@ =~= before + seq![side, side, 0, 0]);
    push_le16(group, 1);
    push_le16(group, 32);
    push_le32(group, len as u64);
    push_le16(group, number);
    assert(group@ =~= before + group_entry(size, number));
}

/// The group of the first `n` images.
pub open spec fn group_entries(n: nat) -> Seq<u8>
    decreases n,
{
    if n == 0 {
        le16(0) + le16(1) + le16(sizes().len())
    } else {
        group_entries((n - 1) as nat) + group_entry(sizes()[n - 1], n as u16)
    }
}

/// The file with the first `n` images in it.
pub open spec fn images_file(n: nat) -> Seq<u8>
    decreases n,
{
    if n == 0 {
        with_record(Seq::empty(), 0, 0, 0, 0, Seq::empty())
    } else {
        with_record(
            images_file((n - 1) as nat),
            RT_ICON,
            n as u16,
            ICON_FLAGS,
            LANG_EN_US,
            image(sizes()[n - 1]),
        )
    }
}

/// The whole file: an empty record, one image for each size, and the group
/// that ties them together.
pub open spec fn resource() -> Seq<u8> {
    with_record(
        images_file(sizes().len()),
        RT_GROUP_ICON,
        1,
        GROUP_FLAGS,
        LANG_EN_US,
        group_entries(sizes().len()),
    )
}

/// The whole resource file.
pub fn resource_file() -> (r: Vec<u8>)
    ensures
        r@ == resource(),
{
    let all = all_sizes();
    let none: Vec<u8> = Vec::new();
    let mut out: Vec<u8> = Vec::new();
    record(&mut out, 0, 0, 0, 0, none.as_slice());
    assert(none@ =~= Seq::empty());
    let mut group: Vec<u8> = Vec::new();
    push_le16(&mut group, 0);
    push_le16(&mut group, 1);
    push_le16(&mut group, all.len() as u16);
    assert(group@ =~= group_entries(0));
    let mut i: usize = 0;
    while i < all.len()
        invariant
            i <= all@.len(),
            all@ == sizes(),
            out@ == images_file(i as nat),
            group@ == group_entries(i as nat),
        decreases all@.len() - i,
    {
        let size: u32 = all[i];
        let number: u16 = i as u16 + 1;
        let picture = dib(size);
        record(&mut out, RT_ICON, number, ICON_FLAGS, LANG_EN_US, picture.as_slice());
        push_entry(&mut group, size, number, picture.len());
        i += 1;
    }
    record(&mut out, RT_GROUP_ICON, 1, GROUP_FLAGS, LANG_EN_US, group.as_slice());
    out
}

/// The number that two bytes from `at` on are, low byte first.
pub open spec fn short_at(bytes: Seq<u8>, at: int) -> int {
    bytes[at] + 256 * bytes[at + 1]
}

/// A record that is added leaves what is there as it is. Behind it come the
/// length of the data, the length of the header, which is 32, the type and the
/// name as numbers, the flags and the language, and then the data in full with
/// zeros up to a boundary of four.
pub proof fn law_how_a_record_is_laid_out(
    file: Seq<u8>,
    ty: u16,
    name: u16,
    flags: u16,
    lang: u16,
    data: Seq<u8>,
)
    requires
        data.len() < 0x1_0000_0000,
    ensures
        ({
            let new = with_record(file, ty, name, flags, lang, data);
            let at = file.len() as int;
            &&& new.take(at) == file
            &&& number_at(new, at) == data.len()
            &&& number_at(new, at + 4) == 32
            &&& short_at(new, at + 8) == 0xffff && short_at(new, at + 10) == ty
            &&& short_at(new, at + 12) == 0xffff && short_at(new, at + 14) == name
            &&& short_at(new, at + 20) == flags && short_at(new, at + 22) == lang
            &&& number_at(new, at + 16) == 0 && number_at(new, at + 24) == 0 && number_at(
                new,
                at + 28,
            ) == 0
            &&& new.subrange(at + 32, at + 32 + data.len() as int) == data
            &&& new.len() % 4 == 0 && new.len() < at + 32 + data.len() + 4
            &&& forall|i: int| at + 32 + data.len() <= i < new.len() ==> new[i] == 0
        }),
{
    law_le32_comes_back(data.len());
    law_the_low_byte_comes_first(data.len());
    law_the_low_byte_comes_first(32);
    law_the_low_byte_comes_first(0);
    law_the_low_byte_comes_first(ty as nat);
    law_the_low_byte_comes_first(name as nat);
    law_the_low_byte_comes_first(flags as nat);
    law_the_low_byte_comes_first(lang as nat);
    law_the_low_byte_comes_first(0xffff);
    let new = with_record(file, ty, name, flags, lang, data);
    let at = file.len() as int;
    let header = record_header(ty, name, flags, lang, data.len());
    assert(header.len() == 32);
    assert(new.take(at) =~= file);
    assert forall|i: int| 0 <= i < 32 implies new[at + i] == #[trigger] header[i] by {}
    let len = le32(data.len());
    assert(header[0] == len[0] && header[1] == len[1] && header[2] == len[2] && header[3]
        == len[3]);
    assert(header[4] == 32 && header[5] == 0 && header[6] == 0 && header[7] == 0);
    assert(header[8] == le16(0xffff)[0] && header[9] == le16(0xffff)[1]);
    assert(header[10] == le16(ty as nat)[0] && header[11] == le16(ty as nat)[1]);
    assert(header[12] == le16(0xffff)[0] && header[13] == le16(0xffff)[1]);
    assert(header[14] == le16(name as nat)[0] && header[15] == le16(name as nat)[1]);
    assert(header[16] == 0 && header[17] == 0 && header[18] == 0 && header[19] == 0);
    assert(header[20] == le16(flags as nat)[0] && header[21] == le16(flags as nat)[1]);
    assert(header[22] == le16(lang as nat)[0] && header[23] == le16(lang as nat)[1]);
    assert(header[24] == 0 && header[25] == 0 && header[26] == 0 && header[27] == 0);
    assert(header[28] == 0 && header[29] == 0 && header[30] == 0 && header[31] == 0);
    assert(new.subrange(at + 32, at + 32 + data.len() as int) =~= data);
}

/// A bit of the mask is set exactly where the picture leaves the background
/// alone. The leftmost of eight pixels has the highest bit.
pub proof fn law_the_mask_leaves_the_background_alone(
    status: Status,
    size: u32,
    b: int,
    y: int,
)
    ensures
        ({
            let byte = mask_byte(status, size, b, y) as int;
            let clear = |i: int|
                !(8 * b + i < size && pixel(status, size as int, 8 * b + i, y).3 != 0);
            &&& (byte / 128 % 2 == 1) == clear(0)
            &&& (byte / 64 % 2 == 1) == clear(1)
            &&& (byte / 32 % 2 == 1) == clear(2)
            &&& (byte / 16 % 2 == 1) == clear(3)
            &&& (byte / 8 % 2 == 1) == clear(4)
            &&& (byte / 4 % 2 == 1) == clear(5)
            &&& (byte / 2 % 2 == 1) == clear(6)
            &&& (byte % 2 == 1) == clear(7)
        }),
{
}

/// The rows of colours and of the mask run from the bottom up, each in full
/// and all of the same length, the mask's on a boundary of four bytes.
pub proof fn law_rows_run_from_the_bottom(status: Status, size: u32, n: nat, r: nat)
    requires
        r < n <= size,
    ensures
        colour_rows(status, size, n).len() == 4 * size * n,
        mask_rows(status, size, n).len() == stride(size) * n,
        stride(size) % 4 == 0,
        8 * stride(size) >= size,
        8 * stride(size) < size + 32,
        colour_rows(status, size, n).subrange(4 * size * r, 4 * size * r + 4 * size) == colour_row(
            status,
            size,
            size - 1 - r,
        ),
        mask_rows(status, size, n).subrange(
            (stride(size) * r) as int,
            (stride(size) * r + stride(size)) as int,
        ) == mask_row(status, size, size - 1 - r),
    decreases n,
{
    lemma_rows_len(status, size, n);
    lemma_rows_len(status, size, (n - 1) as nat);
    let (c, m) = (colour_rows(status, size, (n - 1) as nat), mask_rows(
        status,
        size,
        (n - 1) as nat,
    ));
    let (w, s) = (4 * size as int, stride(size) as int);
    if r + 1 == n {
        assert(colour_rows(status, size, n).subrange(w * r, w * r + w) =~= colour_row(
            status,
            size,
            size - n,
        ));
        assert(mask_rows(status, size, n).subrange(s * r, s * r + s) =~= mask_row(
            status,
            size,
            size - n,
        ));
    } else {
        law_rows_run_from_the_bottom(status, size, (n - 1) as nat, r);
        assert(w * r + w <= w * (n - 1) && 0 <= w * r) by (nonlinear_arith)
            requires
                r + 1 <= n - 1,
                w >= 0,
        ;
        assert(s * r + s <= s * (n - 1) && 0 <= s * r) by (nonlinear_arith)
            requires
                r + 1 <= n - 1,
                s >= 0,
        ;
        assert(colour_rows(status, size, n).subrange(w * r, w * r + w) =~= c.subrange(
            w * r,
            w * r + w,
        ));
        assert(mask_rows(status, size, n).subrange(s * r, s * r + s) =~= m.subrange(
            s * r,
            s * r + s,
        ));
    }
}

proof fn lemma_rows_len(status: Status, size: u32, n: nat)
    ensures
        colour_rows(status, size, n).len() == 4 * size * n,
        mask_rows(status, size, n).len() == stride(size) * n,
    decreases n,
{
    if n > 0 {
        lemma_rows_len(status, size, (n - 1) as nat);
        let (w, s) = (4 * size as int, stride(size) as int);
        let k = (n - 1) as nat;
        assert(4 * size * k == w * (n - 1) && 4 * size * n == w * n && w * (n - 1) + w == w * n)
            by (nonlinear_arith)
            requires
                k == n - 1,
                w == 4 * size,
        ;
        assert(stride(size) * k == s * (n - 1) && stride(size) * n == s * n && s * (n - 1) + s == s
            * n) by (nonlinear_arith)
            requires
                k == n - 1,
                s == stride(size),
        ;
    } else {
        assert(4 * size * n == 0 && stride(size) * n == 0) by (nonlinear_arith)
            requires
                n == 0,
        ;
    }
}

/// An image is its header, the rows of colours and the rows of the mask, and
/// nothing else. The header is 40 bytes long and says so, and gives the width,
/// twice the height, one plane and 32 bits.
pub proof fn law_how_an_image_is_laid_out(size: u32)
    requires
        size < 0x8000_0000,
    ensures
        ({
            let bytes = image(size);
            let colours = 4 * size * size;
            &&& bytes.len() == 40 + colours + stride(size) * size
            &&& number_at(bytes, 0) == 40
            &&& number_at(bytes, 4) == size
            &&& number_at(bytes, 8) == 2 * size
            &&& short_at(bytes, 12) == 1 && short_at(bytes, 14) == 32
            &&& forall|i: int| 16 <= i < 40 ==> bytes[i] == 0
            &&& bytes.subrange(40, 40 + colours) == colour_rows(Status::Ready, size, size as nat)
            &&& bytes.skip(40 + colours) == mask_rows(Status::Ready, size, size as nat)
        }),
{
    law_le32_comes_back(size as nat);
    law_le32_comes_back((2 * size) as nat);
    lemma_rows_len(APP, size, size as nat);
    let head = bitmap_header(size);
    let bytes = image(size);
    let colours = 4 * size * size;
    assert(colours >= 0 && stride(size) * size >= 0) by (nonlinear_arith)
        requires
            colours == 4 * size * size,
    ;
    assert(head.len() == 40);
    assert forall|i: int| 0 <= i < 40 implies bytes[i] == #[trigger] head[i] by {}
    let (w, h) = (le32(size as nat), le32((2 * size) as nat));
    assert(head[0] == 40 && head[1] == 0 && head[2] == 0 && head[3] == 0);
    assert(head[4] == w[0] && head[5] == w[1] && head[6] == w[2] && head[7] == w[3]);
    assert(head[8] == h[0] && head[9] == h[1] && head[10] == h[2] && head[11] == h[3]);
    assert(head[12] == 1 && head[13] == 0 && head[14] == 32 && head[15] == 0);
    assert(bytes.subrange(40, 40 + colours) =~= colour_rows(APP, size, size as nat));
    assert(bytes.skip(40 + colours) =~= mask_rows(APP, size, size as nat));
}

/// In a row of colours each pixel has four bytes, from left to right.
pub proof fn law_a_row_has_its_pixels_in_order(status: Status, size: u32, x: int, y: int)
    requires
        0 <= x < size,
    ensures
        colour_row(status, size, y).len() == 4 * size,
        nth_pixel(colour_row(status, size, y), x) == pixel(status, size as int, x, y),
{
    let row = colour_row(status, size, y);
    assert((4 * x) / 4 == x && (4 * x) % 4 == 0);
    assert((4 * x + 1) / 4 == x && (4 * x + 1) % 4 == 1);
    assert((4 * x + 2) / 4 == x && (4 * x + 2) % 4 == 2);
    assert((4 * x + 3) / 4 == x && (4 * x + 3) % 4 == 3);
}

/// The group says of an image how wide and how high it is, in a byte each, of
/// which 256 is written as 0; that it has no palette, one plane and 32 bits;
/// how long it is; and under which number it is kept.
pub proof fn law_what_the_group_says_of_an_image(size: u32, number: u16)
    requires
        size <= 256,
        image(size).len() < 0x1_0000_0000,
    ensures
        ({
            let entry = group_entry(size, number);
            &&& entry.len() == 14
            &&& entry[0] == size % 256 && entry[1] == size % 256
            &&& entry[2] == 0 && entry[3] == 0
            &&& short_at(entry, 4) == 1 && short_at(entry, 6) == 32
            &&& number_at(entry, 8) == image(size).len()
            &&& short_at(entry, 12) == number
        }),
{
    let n = image(size).len();
    law_le32_comes_back(n);
    law_the_low_byte_comes_first(number as nat);
    let entry = group_entry(size, number);
    let len = le32(n);
    assert(entry[4] == 1 && entry[5] == 0 && entry[6] == 32 && entry[7] == 0);
    assert(entry[8] == len[0] && entry[9] == len[1] && entry[10] == len[2] && entry[11]
        == len[3]);
    assert(entry[12] == le16(number as nat)[0] && entry[13] == le16(number as nat)[1]);
}

/// The group begins with a header that says that it is one of icons, and how
/// many. Behind it is what it says of each image, in order and numbered from
/// one.
pub proof fn law_the_group_lists_every_image(n: nat, i: int)
    requires
        0 <= i < n <= 8,
    ensures
        ({
            let group = group_entries(n);
            &&& group.len() == 6 + 14 * n
            &&& short_at(group, 0) == 0 && short_at(group, 2) == 1 && short_at(group, 4) == 8
            &&& group.subrange(6 + 14 * i, 20 + 14 * i) == group_entry(
                seq![16u32, 20, 24, 32, 48, 64, 128, 256][i],
                (i + 1) as u16,
            )
        }),
    decreases n,
{
    let (group, shorter) = (group_entries(n), group_entries((n - 1) as nat));
    let size = sizes()[n - 1];
    assert(group_entry(size, n as u16).len() == 14);
    if n == 1 {
        assert(shorter.len() == 6);
        assert(shorter[0] == 0 && shorter[1] == 0 && shorter[2] == 1 && shorter[3] == 0
            && shorter[4] == 8 && shorter[5] == 0);
    } else {
        law_the_group_lists_every_image((n - 1) as nat, 0);
    }
    if i == n - 1 {
        assert(group.subrange(6 + 14 * i, 20 + 14 * i) =~= group_entry(size, n as u16));
    } else {
        law_the_group_lists_every_image((n - 1) as nat, i);
        assert(group.subrange(6 + 14 * i, 20 + 14 * i) =~= shorter.subrange(
            6 + 14 * i,
            20 + 14 * i,
        ));
    }
    assert(group[0] == shorter[0] && group[1] == shorter[1] && group[2] == shorter[2] && group[3]
        == shorter[3] && group[4] == shorter[4] && group[5] == shorter[5]);
}

/// The file begins with an empty record. Then comes a record for each size
/// that the shell is likely to ask for, numbered from one, and the group of
/// them all, which is the icon that the program goes by, is the last.
pub proof fn law_what_the_file_holds(n: nat)
    requires
        0 < n <= 8,
    ensures
        images_file(0) == with_record(Seq::empty(), 0, 0, 0, 0, Seq::empty()),
        images_file(n) == with_record(
            images_file((n - 1) as nat),
            3,
            n as u16,
            0x1010,
            0x409,
            image(seq![16u32, 20, 24, 32, 48, 64, 128, 256][n - 1]),
        ),
        resource() == with_record(images_file(8), 14, 1, 0x1030, 0x409, group_entries(8)),
{
}

/// The files that are made are the ones laid out above.
pub proof fn law_what_is_made_of_the_drawings(
    status: Status,
    size: u32,
    stencil: Vec<u8>,
    picture: Vec<u8>,
    file: Vec<u8>,
)
    requires
        call_ensures(mask, (status, size), stencil),
        call_ensures(dib, (size,), picture),
        call_ensures(resource_file, (), file),
    ensures
        stencil@ == mask_rows(status, size, size as nat),
        picture@ == image(size),
        file@ == resource(),
{
}

} // verus!
