//! The memory-dump renderer: a byte buffer and its address become an aligned
//! report of hexadecimal values, optionally with a header and an ASCII sidebar.

use vstd::prelude::*;
use crate::error::Error;
use crate::text::text_of;

verus! {

/// The character of one hexadecimal digit.
pub open spec fn hex_digit(d: nat) -> char {
    if d == 0 { '0' } else if d == 1 { '1' } else if d == 2 { '2' } else if d == 3 { '3' }
    else if d == 4 { '4' } else if d == 5 { '5' } else if d == 6 { '6' } else if d == 7 { '7' }
    else if d == 8 { '8' } else if d == 9 { '9' } else if d == 10 { 'a' } else if d == 11 { 'b' }
    else if d == 12 { 'c' } else if d == 13 { 'd' } else if d == 14 { 'e' } else { 'f' }
}

/// The shortest lower-case hexadecimal numeral of `v`.
pub open spec fn hex_digits(v: nat) -> Seq<char>
    decreases v,
{
    if v < 16 {
        seq![hex_digit(v)]
    } else {
        hex_digits(v / 16).push(hex_digit(v % 16))
    }
}

/// `n` copies of `c`.
pub open spec fn fill(c: char, n: nat) -> Seq<char> {
    Seq::new(n, |i: int| c)
}

/// `s`, right-aligned in a field of at least `width` characters.
pub open spec fn pad_left(s: Seq<char>, c: char, width: nat) -> Seq<char> {
    if s.len() < width {
        fill(c, (width - s.len()) as nat) + s
    } else {
        s
    }
}

/// The byte at `i`, or zero where the line holds none there.
pub open spec fn byte_at(line: Seq<u8>, i: int) -> nat {
    if 0 <= i < line.len() {
        line[i] as nat
    } else {
        0
    }
}

/// The little-endian number made of the `size` bytes from `at` on.
pub open spec fn le_value(line: Seq<u8>, at: int, size: nat) -> nat {
    if size == 1 {
        byte_at(line, at)
    } else if size == 2 {
        byte_at(line, at) + 0x100 * byte_at(line, at + 1)
    } else {
        byte_at(line, at) + 0x100 * byte_at(line, at + 1) + 0x1_0000 * byte_at(line, at + 2)
            + 0x100_0000 * byte_at(line, at + 3)
    }
}

/// Whether column `col` of a row shows data: the row's `len` bytes start at
/// column `offs`.
pub open spec fn shown(offs: nat, len: nat, col: nat) -> bool {
    offs <= col && col - offs < len
}

/// What the sidebar shows for a byte.
pub open spec fn printable(b: u8) -> char {
    if 0x20 <= b <= 0x7e {
        b as char
    } else {
        '.'
    }
}

/// 16 to the power `n`.
pub open spec fn pow16(n: nat) -> nat
    decreases n,
{
    if n == 0 {
        1
    } else {
        16 * pow16((n - 1) as nat)
    }
}

/// A number below 16^n has at most `n` hexadecimal digits.
pub proof fn lemma_hex_digits_len(v: nat, n: nat)
    requires
        n >= 1,
        v < pow16(n),
    ensures
        1 <= hex_digits(v).len() <= n,
    decreases n,
{
    if v >= 16 {
        assert(pow16(1) == 16) by {
            reveal_with_fuel(pow16, 2);
        }
        assert(n >= 2);
        assert(pow16(n) == 16 * pow16((n - 1) as nat));
        assert(v / 16 < pow16((n - 1) as nat));
        lemma_hex_digits_len(v / 16, (n - 1) as nat);
    }
}

proof fn lemma_pow16_values()
    ensures
        pow16(2) == 0x100,
        pow16(4) == 0x1_0000,
        pow16(8) == 0x1_0000_0000,
{
    reveal_with_fuel(pow16, 9);
}

fn digit_char(d: u8) -> (c: char)
    requires
        d < 16,
    ensures
        c == hex_digit(d as nat),
{
    match d {
        0 => '0', 1 => '1', 2 => '2', 3 => '3', 4 => '4', 5 => '5', 6 => '6', 7 => '7',
        8 => '8', 9 => '9', 10 => 'a', 11 => 'b', 12 => 'c', 13 => 'd', 14 => 'e', _ => 'f',
    }
}

fn push_fill(out: &mut Vec<char>, c: char, n: usize)
    ensures
        final(out)@ == old(out)@ + fill(c, n as nat),
{
    let ghost start = out@;
    let mut i: usize = 0;
    assert(out@ =~= start + fill(c, 0));
    while i < n
        invariant
            i <= n,
            out@ == start + fill(c, i as nat),
        decreases n - i,
    {
        out.push(c);
        i += 1;
        assert(out@ =~= start + fill(c, i as nat));
    }
}

fn push_all(out: &mut Vec<char>, text: &Vec<char>)
    ensures
        final(out)@ == old(out)@ + text@,
{
    let ghost start = out@;
    let mut i: usize = 0;
    assert(out@ =~= start + text@.subrange(0, 0));
    while i < text.len()
        invariant
            i <= text@.len(),
            out@ == start + text@.subrange(0, i as int),
        decreases text@.len() - i,
    {
        out.push(text[i]);
        i += 1;
        assert(out@ =~= start + text@.subrange(0, i as int));
    }
    assert(text@.subrange(0, text@.len() as int) =~= text@);
}

fn push_hex_digits(out: &mut Vec<char>, v: u64)
    ensures
        final(out)@ == old(out)@ + hex_digits(v as nat),
    decreases v,
{
    let ghost start = out@;
    if v >= 16 {
        push_hex_digits(out, v / 16);
    }
    out.push(digit_char((v % 16) as u8));
    assert(out@ =~= start + hex_digits(v as nat));
}

fn push_padded(out: &mut Vec<char>, text: &Vec<char>, c: char, width: usize)
    ensures
        final(out)@ == old(out)@ + pad_left(text@, c, width as nat),
{
    let ghost start = out@;
    if text.len() < width {
        push_fill(out, c, width - text.len());
    }
    push_all(out, text);
    assert(out@ =~= start + pad_left(text@, c, width as nat));
}

fn push_hex(out: &mut Vec<char>, v: u64, c: char, width: usize)
    ensures
        final(out)@ == old(out)@ + pad_left(hex_digits(v as nat), c, width as nat),
{
    let mut digits: Vec<char> = Vec::new();
    push_hex_digits(&mut digits, v);
    assert(digits@ =~= hex_digits(v as nat));
    push_padded(out, &digits, c, width);
}

/// How a buffer is laid out on the page.
#[derive(Debug)]
pub struct Dumper {
    /// Element size, in bytes
    pub size: usize,
    /// Row width, in bytes
    pub width: usize,
    /// Least number of digits of an address
    pub addrsize: usize,
    /// Left indentation, in characters
    pub indent: usize,
    /// Indent every row but the first
    pub hanging: bool,
    /// Begin with a row of column offsets
    pub header: bool,
    /// End each row with the bytes as characters
    pub ascii: bool,
}

impl Dumper {
    /// Elements of 1, 2 or 4 bytes.
    pub open spec fn size_ok(&self) -> bool {
        self.size == 1 || self.size == 2 || self.size == 4
    }

    /// A configuration that can render.
    pub open spec fn valid(&self) -> bool {
        self.size_ok() && self.width > 0
    }

    /// The number of element slots in a row.
    pub open spec fn slots(&self) -> nat {
        (self.width / self.size) as nat
    }

    /// The width in characters of the hexadecimal field of every row.
    pub open spec fn hex_width(&self) -> nat {
        self.slots() * (2 * self.size + 1) as nat
    }

    /// Slot `k` of a data row: an element and a blank, or blanks alone.
    pub open spec fn slot(&self, line: Seq<u8>, offs: nat, k: nat) -> Seq<char> {
        let col = k * self.size as nat;
        if shown(offs, line.len(), col) {
            pad_left(
                hex_digits(le_value(line, col - offs, self.size as nat)),
                '0',
                2 * self.size as nat,
            ).push(' ')
        } else {
            fill(' ', 2 * self.size as nat + 1)
        }
    }

    /// The first `k` slots of a data row.
    pub open spec fn hex_field_to(&self, line: Seq<u8>, offs: nat, k: nat) -> Seq<char>
        decreases k,
    {
        if k == 0 {
            Seq::empty()
        } else {
            self.hex_field_to(line, offs, (k - 1) as nat) + self.slot(line, offs, (k - 1) as nat)
        }
    }

    /// The hexadecimal field of a data row.
    pub open spec fn hex_field(&self, line: Seq<u8>, offs: nat) -> Seq<char> {
        self.hex_field_to(line, offs, self.slots())
    }

    /// One character of the sidebar.
    pub open spec fn ascii_cell(line: Seq<u8>, offs: nat, col: nat) -> char {
        if shown(offs, line.len(), col) {
            printable(line[col - offs])
        } else {
            ' '
        }
    }

    /// The sidebar of a data row; empty where none is asked for.
    pub open spec fn ascii_field(&self, line: Seq<u8>, offs: nat) -> Seq<char> {
        if self.ascii {
            seq!['|', ' '] + Seq::new(self.width as nat, |c: int| Self::ascii_cell(line, offs, c as nat))
        } else {
            Seq::empty()
        }
    }

    /// What stands before the hexadecimal field of a data row.
    pub open spec fn row_prefix(&self, addr: nat, indent: nat) -> Seq<char> {
        fill(' ', indent) + seq!['0', 'x'] + pad_left(hex_digits(addr), '0', self.addrsize as nat)
            + seq![' ', '|', ' ']
    }

    /// A data row: `line` are its bytes, the first of them in column `offs`.
    pub open spec fn row(&self, line: Seq<u8>, addr: nat, offs: nat, indent: nat) -> Seq<char> {
        self.row_prefix(addr, indent) + self.hex_field(line, offs) + self.ascii_field(line, offs)
    }

    /// Slot `k` of the header: the column's offset, or the mark of the
    /// column in which the data begins.
    pub open spec fn header_slot(&self, offs: nat, k: nat) -> Seq<char> {
        let col = k * self.size as nat;
        if col == offs {
            seq![' '] + pad_left(seq!['\\', '/'], ' ', 2 * self.size as nat)
        } else {
            seq![' '] + pad_left(hex_digits(col), ' ', 2 * self.size as nat)
        }
    }

    /// The first `k` slots of the header.
    pub open spec fn header_field_to(&self, offs: nat, k: nat) -> Seq<char>
        decreases k,
    {
        if k == 0 {
            Seq::empty()
        } else {
            self.header_field_to(offs, (k - 1) as nat) + self.header_slot(offs, (k - 1) as nat)
        }
    }

    /// The hexadecimal field of the header.
    pub open spec fn header_field(&self, offs: nat) -> Seq<char> {
        self.header_field_to(offs, self.slots())
    }

    /// What stands before the hexadecimal field of the header.
    pub open spec fn header_prefix(&self, indent: nat) -> Seq<char> {
        fill(' ', indent + self.addrsize as nat + 4)
    }

    /// The header row.
    pub open spec fn header_row(&self, offs: nat, indent: nat) -> Seq<char> {
        self.header_prefix(indent) + self.header_field(offs)
    }

    /// The column of the first byte: the address within its row.
    pub open spec fn offs(&self, addr: u32) -> nat {
        (addr as nat) % (self.width as nat)
    }

    /// The number of bytes in the first data row.
    pub open spec fn first_len(&self, len: nat, addr: u32) -> nat {
        let room = (self.width - self.offs(addr)) as nat;
        if room < len { room } else { len }
    }

    /// The indent of the first row, and of the header.
    pub open spec fn first_indent(&self) -> nat {
        if self.hanging { 0 } else { self.indent as nat }
    }

    /// The number of rows that `rest` bytes fill after the first row.
    pub open spec fn later_rows(&self, rest: nat) -> nat {
        let w = self.width as nat;
        if rest % w == 0 { rest / w } else { rest / w + 1 }
    }

    /// The number of data rows for `len` bytes at `addr`: always a first one.
    pub open spec fn data_rows(&self, len: nat, addr: u32) -> nat {
        1 + self.later_rows((len - self.first_len(len, addr)) as nat)
    }

    /// Data row `j` of the report.
    pub open spec fn data_row(&self, bytes: Seq<u8>, addr: u32, j: nat) -> Seq<char> {
        let offs = self.offs(addr);
        let lim = self.first_len(bytes.len(), addr);
        if j == 0 {
            self.row(bytes.subrange(0, lim as int), (addr - offs) as nat, offs, self.first_indent())
        } else {
            let start = lim + (j - 1) * self.width;
            let end = if start + self.width < bytes.len() { start + self.width } else { bytes.len() as int };
            self.row(
                bytes.subrange(start, end),
                (addr - offs + j * self.width) as nat,
                0,
                self.indent as nat,
            )
        }
    }

    /// The number of lines of the report.
    pub open spec fn line_count(&self, len: nat, addr: u32) -> nat {
        if self.header { self.data_rows(len, addr) + 1 } else { self.data_rows(len, addr) }
    }

    /// Line `i` of the report.
    pub open spec fn line(&self, bytes: Seq<u8>, addr: u32, i: nat) -> Seq<char> {
        if self.header {
            if i == 0 {
                self.header_row(self.offs(addr), self.first_indent())
            } else {
                self.data_row(bytes, addr, (i - 1) as nat)
            }
        } else {
            self.data_row(bytes, addr, i)
        }
    }

    /// The hexadecimal field of line `i` of the report.
    pub open spec fn line_hex_field(&self, bytes: Seq<u8>, addr: u32, i: nat) -> Seq<char> {
        let offs = self.offs(addr);
        let lim = self.first_len(bytes.len(), addr);
        let j = if self.header { i - 1 } else { i as int };
        if j < 0 {
            self.header_field(offs)
        } else if j == 0 {
            self.hex_field(bytes.subrange(0, lim as int), offs)
        } else {
            let start = lim + (j - 1) * self.width;
            let end = if start + self.width < bytes.len() { start + self.width } else { bytes.len() as int };
            self.hex_field(bytes.subrange(start, end), 0)
        }
    }

    /// The default layout: bytes, sixteen to a row, with header and sidebar.
    pub fn new() -> (d: Self)
        ensures
            d.size == 1,
            d.width == 16,
            d.addrsize == 8,
            d.indent == 0,
            !d.hanging,
            d.header,
            d.ascii,
            d.valid(),
    {
        Self { size: 1, width: 16, addrsize: 8, indent: 0, hanging: false, header: true, ascii: true }
    }

    /// The element of `size` bytes that starts at `bytes[at]`, where the row
    /// ends before `end`.
    fn element(&self, bytes: &[u8], start: usize, end: usize, at: usize) -> (v: u64)
        requires
            self.size_ok(),
            start <= at < end <= bytes@.len(),
        ensures
            v == le_value(bytes@.subrange(start as int, end as int), at - start, self.size as nat),
            v < 0x1_0000_0000,
            self.size == 1 ==> v < 0x100,
            self.size == 2 ==> v < 0x1_0000,
    {
        let ghost line = bytes@.subrange(start as int, end as int);
        let b0: u64 = bytes[at] as u64;
        assert(b0 == byte_at(line, at - start));
        if self.size == 1 {
            return b0;
        }
        let b1: u64 = if end - at > 1 { bytes[at + 1] as u64 } else { 0 };
        assert(b1 == byte_at(line, at - start + 1));
        if self.size == 2 {
            return b0 + 0x100 * b1;
        }
        let b2: u64 = if end - at > 2 { bytes[at + 2] as u64 } else { 0 };
        assert(b2 == byte_at(line, at - start + 2));
        let b3: u64 = if end - at > 3 { bytes[at + 3] as u64 } else { 0 };
        assert(b3 == byte_at(line, at - start + 3));
        b0 + 0x100 * b1 + 0x1_0000 * b2 + 0x100_0000 * b3
    }

    /// Appends the hexadecimal field of a data row.
    fn push_hex_field(&self, out: &mut Vec<char>, bytes: &[u8], start: usize, end: usize, offs: usize)
        requires
            self.valid(),
            start <= end <= bytes@.len(),
        ensures
            final(out)@ == old(out)@ + self.hex_field(
                bytes@.subrange(start as int, end as int),
                offs as nat,
            ),
    {
        let ghost before = out@;
        let ghost line = bytes@.subrange(start as int, end as int);
        let slots: usize = self.width / self.size;
        let mut k: usize = 0;
        let mut col: usize = 0;
        assert(out@ =~= before + self.hex_field_to(line, offs as nat, 0));
        while k < slots
            invariant
                self.valid(),
                start <= end <= bytes@.len(),
                line == bytes@.subrange(start as int, end as int),
                slots == self.slots(),
                k <= slots,
                col == k * self.size,
                col <= self.width,
                out@ == before + self.hex_field_to(line, offs as nat, k as nat),
            decreases slots - k,
        {
            assert(col + self.size <= self.width) by (nonlinear_arith)
                requires
                    col == k * self.size,
                    k < self.width / self.size,
                    self.size > 0,
            {
            }
            let ghost prev = out@;
            if col >= offs && col - offs < end - start {
                let v = self.element(bytes, start, end, start + (col - offs));
                push_hex(out, v, '0', 2 * self.size);
                out.push(' ');
            } else {
                push_fill(out, ' ', 2 * self.size + 1);
            }
            assert(out@ =~= prev + self.slot(line, offs as nat, k as nat));
            k += 1;
            col += self.size;
            assert(col == k * self.size) by (nonlinear_arith)
                requires
                    col - self.size == (k - 1) * self.size,
            {
            }
            assert(out@ =~= before + self.hex_field_to(line, offs as nat, k as nat));
        }
    }

    /// Appends the sidebar of a data row.
    fn push_ascii_field(&self, out: &mut Vec<char>, bytes: &[u8], start: usize, end: usize, offs: usize)
        requires
            start <= end <= bytes@.len(),
        ensures
            final(out)@ == old(out)@ + self.ascii_field(
                bytes@.subrange(start as int, end as int),
                offs as nat,
            ),
    {
        let ghost before = out@;
        let ghost line = bytes@.subrange(start as int, end as int);
        if self.ascii {
            out.push('|');
            out.push(' ');
            let ghost bar = out@;
            assert(bar =~= before + seq!['|', ' ']);
            let mut c: usize = 0;
            assert(out@ =~= bar + Seq::new(0, |i: int| Self::ascii_cell(line, offs as nat, i as nat)));
            while c < self.width
                invariant
                    start <= end <= bytes@.len(),
                    line == bytes@.subrange(start as int, end as int),
                    c <= self.width,
                    out@ == bar + Seq::new(
                        c as nat,
                        |i: int| Self::ascii_cell(line, offs as nat, i as nat),
                    ),
                decreases self.width - c,
            {
                let ch = if c >= offs && c - offs < end - start {
                    let b = bytes[start + (c - offs)];
                    if b >= 0x20 && b <= 0x7e { b as char } else { '.' }
                } else {
                    ' '
                };
                assert(ch == Self::ascii_cell(line, offs as nat, c as nat));
                out.push(ch);
                c += 1;
                assert(out@ =~= bar + Seq::new(
                    c as nat,
                    |i: int| Self::ascii_cell(line, offs as nat, i as nat),
                ));
            }
            assert(out@ =~= before + self.ascii_field(line, offs as nat));
        } else {
            assert(out@ =~= before + self.ascii_field(line, offs as nat));
        }
    }

    /// One data row: the bytes `start..end` of `bytes`, the first of them in
    /// column `offs`.
    fn render_row(
        &self,
        bytes: &[u8],
        start: usize,
        end: usize,
        addr: u32,
        offs: usize,
        indent: usize,
    ) -> (row: Vec<char>)
        requires
            self.valid(),
            start <= end <= bytes@.len(),
        ensures
            row@ == self.row(
                bytes@.subrange(start as int, end as int),
                addr as nat,
                offs as nat,
                indent as nat,
            ),
    {
        let mut out: Vec<char> = Vec::new();
        push_fill(&mut out, ' ', indent);
        out.push('0');
        out.push('x');
        push_hex(&mut out, addr as u64, '0', self.addrsize);
        out.push(' ');
        out.push('|');
        out.push(' ');
        assert(out@ =~= self.row_prefix(addr as nat, indent as nat));
        self.push_hex_field(&mut out, bytes, start, end, offs);
        self.push_ascii_field(&mut out, bytes, start, end, offs);
        out
    }

    /// The header row.
    fn render_header(&self, offs: usize, indent: usize) -> (row: Vec<char>)
        requires
            self.valid(),
        ensures
            row@ == self.header_row(offs as nat, indent as nat),
    {
        let mut out: Vec<char> = Vec::new();
        push_fill(&mut out, ' ', indent);
        push_fill(&mut out, ' ', self.addrsize);
        push_fill(&mut out, ' ', 4);
        assert(out@ =~= self.header_prefix(indent as nat));
        let ghost before = out@;
        let mut mark: Vec<char> = Vec::new();
        mark.push('\\');
        mark.push('/');
        assert(mark@ =~= seq!['\\', '/']);
        let slots: usize = self.width / self.size;
        let mut k: usize = 0;
        let mut col: usize = 0;
        assert(out@ =~= before + self.header_field_to(offs as nat, 0));
        while k < slots
            invariant
                self.valid(),
                mark@ == seq!['\\', '/'],
                slots == self.slots(),
                k <= slots,
                col == k * self.size,
                col <= self.width,
                out@ == before + self.header_field_to(offs as nat, k as nat),
            decreases slots - k,
        {
            assert(col + self.size <= self.width) by (nonlinear_arith)
                requires
                    col == k * self.size,
                    k < self.width / self.size,
                    self.size > 0,
            {
            }
            let ghost prev = out@;
            out.push(' ');
            if col == offs {
                push_padded(&mut out, &mark, ' ', 2 * self.size);
            } else {
                push_hex(&mut out, col as u64, ' ', 2 * self.size);
            }
            assert(out@ =~= prev + self.header_slot(offs as nat, k as nat));
            k += 1;
            col += self.size;
            assert(col == k * self.size) by (nonlinear_arith)
                requires
                    col - self.size == (k - 1) * self.size,
            {
            }
            assert(out@ =~= before + self.header_field_to(offs as nat, k as nat));
        }
        out
    }

    /// After a row, the bytes that are left fill one row less.
    proof fn lemma_later_rows_step(&self, rest: nat)
        requires
            self.width > 0,
            rest > 0,
        ensures
            self.later_rows(rest) == 1 + self.later_rows(
                if rest > self.width { (rest - self.width) as nat } else { 0 },
            ),
    {
        let w = self.width as nat;
        if rest > w {
            let less = (rest - w) as nat;
            assert(less / w == rest / w - 1 && less % w == rest % w) by (nonlinear_arith)
                requires
                    less == rest - w,
                    w > 0,
            {
            }
        } else if rest == w {
            assert(rest / w == 1 && rest % w == 0) by (nonlinear_arith)
                requires
                    rest == w,
                    w > 0,
            {
            }
            assert(0nat / w == 0 && 0nat % w == 0) by (nonlinear_arith)
                requires
                    w > 0,
            {
            }
        } else {
            assert(rest / w == 0 && rest % w == rest) by (nonlinear_arith)
                requires
                    rest < w,
                    w > 0,
            {
            }
            assert(0nat / w == 0 && 0nat % w == 0) by (nonlinear_arith)
                requires
                    w > 0,
            {
            }
        }
    }

    /// Renders `bytes`, which lie at `addr`, as the lines of a report: the
    /// header where one is asked for, a first row that begins at the row
    /// boundary at or below `addr`, and one row for each further `width`
    /// bytes. An element size other than 1, 2 or 4, or a row width of zero,
    /// is refused.
    pub fn dump(&self, bytes: &[u8], addr: u32) -> (r: Result<Vec<String>, Error>)
        requires
            addr + bytes@.len() <= 0x1_0000_0000,
        ensures
            !self.size_ok() ==> r matches Err(Error::InvalidElementWidth),
            self.size_ok() && self.width == 0 ==> r matches Err(Error::InvalidRowWidth),
            self.valid() ==> match r {
                Ok(lines) => lines@.len() == self.line_count(bytes@.len(), addr)
                    && forall|i: int|
                        0 <= i < lines@.len() ==> (#[trigger] lines@[i])@ == self.line(
                            bytes@,
                            addr,
                            i as nat,
                        ),
                Err(_) => false,
            },
    {
        if !(self.size == 1 || self.size == 2 || self.size == 4) {
            return Err(Error::InvalidElementWidth);
        }
        if self.width == 0 {
            return Err(Error::InvalidRowWidth);
        }
        let len: usize = bytes.len();
        let wide: u64 = (addr as u64) % (self.width as u64);
        assert(wide <= addr && wide < self.width) by (nonlinear_arith)
            requires
                wide == (addr as int) % (self.width as int),
                self.width > 0,
                addr >= 0,
        {
        }
        let offs: usize = wide as usize;
        let first_indent: usize = if self.hanging { 0 } else { self.indent };
        let base: u32 = addr - (offs as u32);
        let mut out: Vec<String> = Vec::new();
        if self.header {
            let head = self.render_header(offs, first_indent);
            out.push(text_of(&head));
        }
        let ghost shift: nat = if self.header { 1 } else { 0 };
        let room: usize = self.width - offs;
        let lim: usize = if room < len { room } else { len };
        let first = self.render_row(bytes, 0, lim, base, offs, first_indent);
        out.push(text_of(&first));
        let mut pos: usize = lim;
        let mut row_addr: u32 = base;
        let ghost mut j: nat = 1;
        while pos < len
            invariant
                self.valid(),
                len == bytes@.len(),
                addr + len <= 0x1_0000_0000,
                offs == self.offs(addr),
                base == addr - offs,
                lim == self.first_len(len as nat, addr),
                shift == (if self.header { 1nat } else { 0nat }),
                lim <= pos <= len,
                j >= 1,
                pos < len ==> pos == lim + (j - 1) * self.width,
                row_addr == base + (j - 1) * self.width,
                (j - 1) + self.later_rows((len - pos) as nat) == self.later_rows((len - lim) as nat),
                out@.len() == shift + j,
                forall|i: int|
                    0 <= i < out@.len() ==> (#[trigger] out@[i])@ == self.line(bytes@, addr, i as nat),
            decreases len - pos,
        {
            let end: usize = if len - pos > self.width { pos + self.width } else { len };
            proof {
                self.lemma_later_rows_step((len - pos) as nat);
                assert(j * self.width == (j - 1) * self.width + self.width) by (nonlinear_arith);
            }
            row_addr = row_addr + (self.width as u32);
            let row = self.render_row(bytes, pos, end, row_addr, 0, self.indent);
            let text = text_of(&row);
            assert(text@ == self.data_row(bytes@, addr, j));
            out.push(text);
            pos = end;
            proof {
                j = j + 1;
            }
        }
        proof {
            assert(0nat / (self.width as nat) == 0 && 0nat % (self.width as nat) == 0)
                by (nonlinear_arith)
                requires
                    self.width > 0,
            {
            }
        }
        Ok(out)
    }
}

impl Dumper {
    /// Whether slot `k` of the header holds what it shows: the mark, or an
    /// offset of no more digits than an element has.
    pub open spec fn offset_fits(&self, offs: nat, k: nat) -> bool {
        let col = k * self.size as nat;
        col == offs || hex_digits(col).len() <= 2 * self.size
    }

    /// Whether every slot of the header holds what it shows.
    pub open spec fn offsets_fit(&self, offs: nat) -> bool {
        forall|k: nat| k < self.slots() ==> #[trigger] self.offset_fits(offs, k)
    }

    /// The offsets fit wherever a row is no wider than the numbers that an
    /// element can hold: 256 bytes for single bytes.
    pub proof fn lemma_narrow_rows_fit(&self, offs: nat)
        requires
            self.valid(),
            self.width <= pow16(2 * self.size as nat),
        ensures
            self.offsets_fit(offs),
    {
        assert forall|k: nat| k < self.slots() implies #[trigger] self.offset_fits(offs, k) by {
            let col = k * self.size as nat;
            assert(col < self.width) by (nonlinear_arith)
                requires
                    col == k * self.size,
                    k < self.width / self.size,
                    self.size > 0,
            {
            }
            lemma_hex_digits_len(col, 2 * self.size as nat);
        }
    }

    /// Every slot of a data row is as wide as an element's digits and a blank.
    pub proof fn lemma_slot_width(&self, line: Seq<u8>, offs: nat, k: nat)
        requires
            self.size_ok(),
        ensures
            self.slot(line, offs, k).len() == 2 * self.size + 1,
    {
        let col = k * self.size as nat;
        if shown(offs, line.len(), col) {
            let v = le_value(line, col - offs, self.size as nat);
            lemma_pow16_values();
            assert(v < pow16(2 * self.size as nat));
            lemma_hex_digits_len(v, 2 * self.size as nat);
        }
    }

    /// The first `k` slots of a data row take `k` times the width of a slot.
    pub proof fn lemma_hex_field_to_width(&self, line: Seq<u8>, offs: nat, k: nat)
        requires
            self.size_ok(),
        ensures
            self.hex_field_to(line, offs, k).len() == k * (2 * self.size + 1),
        decreases k,
    {
        if k > 0 {
            self.lemma_hex_field_to_width(line, offs, (k - 1) as nat);
            self.lemma_slot_width(line, offs, (k - 1) as nat);
            let w: int = 2 * self.size + 1;
            let m: int = k - 1;
            assert(k * w == m * w + w) by (nonlinear_arith)
                requires
                    m == k - 1,
            {
            }
        } else {
            assert(0 * (2 * self.size + 1) == 0) by (nonlinear_arith);
        }
    }

    /// The first `k` slots of the header take `k` times the width of a slot,
    /// where the column offsets fit.
    pub proof fn lemma_header_field_to_width(&self, offs: nat, k: nat)
        requires
            self.valid(),
            self.offsets_fit(offs),
            k <= self.slots(),
        ensures
            self.header_field_to(offs, k).len() == k * (2 * self.size + 1),
        decreases k,
    {
        if k > 0 {
            self.lemma_header_field_to_width(offs, (k - 1) as nat);
            assert(self.offset_fits(offs, (k - 1) as nat));
            assert(seq!['\\', '/'].len() == 2);
            assert(self.header_slot(offs, (k - 1) as nat).len() == 2 * self.size + 1);
            let w: int = 2 * self.size + 1;
            let m: int = k - 1;
            assert(k * w == m * w + w) by (nonlinear_arith)
                requires
                    m == k - 1,
            {
            }
        } else {
            assert(0 * (2 * self.size + 1) == 0) by (nonlinear_arith);
        }
    }

    /// Alignment: in every line of a report, the header among them, the
    /// hexadecimal field is a part of the line and has the same width. For
    /// the header this asks that its column offsets fit their slots: one
    /// that does not is wider than the elements below it.
    pub proof fn lemma_lines_aligned(&self, bytes: Seq<u8>, addr: u32, i: nat)
        requires
            self.valid(),
            self.header ==> self.offsets_fit(self.offs(addr)),
            i < self.line_count(bytes.len(), addr),
        ensures
            self.line_hex_field(bytes, addr, i).len() == self.hex_width(),
            exists|before: Seq<char>, after: Seq<char>|
                self.line(bytes, addr, i) == before + self.line_hex_field(bytes, addr, i) + after,
    {
        let offs = self.offs(addr);
        let lim = self.first_len(bytes.len(), addr);
        let hex = self.line_hex_field(bytes, addr, i);
        if self.header && i == 0 {
            self.lemma_header_field_to_width(offs, self.slots());
            let before = self.header_prefix(self.first_indent());
            let after = Seq::<char>::empty();
            assert(self.line(bytes, addr, i) =~= before + hex + after);
        } else {
            let j: nat = if self.header { (i - 1) as nat } else { i };
            if j == 0 {
                let line = bytes.subrange(0, lim as int);
                self.lemma_hex_field_to_width(line, offs, self.slots());
                let before = self.row_prefix((addr - offs) as nat, self.first_indent());
                let after = self.ascii_field(line, offs);
                assert(self.line(bytes, addr, i) == before + hex + after);
            } else {
                let start = lim + (j - 1) * self.width;
                let end = if start + self.width < bytes.len() {
                    start + self.width
                } else {
                    bytes.len() as int
                };
                let line = bytes.subrange(start, end);
                self.lemma_hex_field_to_width(line, 0, self.slots());
                let before = self.row_prefix((addr - offs + j * self.width) as nat, self.indent as nat);
                let after = self.ascii_field(line, 0);
                assert(self.line(bytes, addr, i) == before + hex + after);
            }
        }
    }
}

impl Default for Dumper {
    fn default() -> (d: Self)
        ensures
            d.size == 1,
            d.width == 16,
            d.addrsize == 8,
            d.indent == 0,
            !d.hanging,
            d.header,
            d.ascii,
    {
        Self::new()
    }
}

} // verus!
