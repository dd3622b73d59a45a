//! Text of Office 97-2003 files (.doc, .xls, .ppt): the streams of the compound file that
//! holds them, and the text each format keeps in its main stream, as UTF-16 code units.
use vstd::prelude::*;

verus! {

// ---------------------------------------------------------------- little-endian fields

/// The 16-bit little-endian number at `i`; 0 when it runs past the end.
pub open spec fn u16_at(b: Seq<u8>, i: int) -> nat {
    if 0 <= i && i + 2 <= b.len() {
        b[i] as nat + b[i + 1] as nat * 256
    } else {
        0
    }
}

/// The 32-bit little-endian number at `i`; 0 when it runs past the end.
pub open spec fn u32_at(b: Seq<u8>, i: int) -> nat {
    if 0 <= i && i + 4 <= b.len() {
        b[i] as nat + b[i + 1] as nat * 256 + b[i + 2] as nat * 65536 + b[i + 3] as nat * 16777216
    } else {
        0
    }
}

fn read_u16(b: &[u8], i: u64) -> (r: u32)
    ensures
        r == u16_at(b@, i as int),
{
    if i <= b.len() as u64 && b.len() as u64 - i >= 2 {
        let i = i as usize;
        b[i] as u32 + b[i + 1] as u32 * 256
    } else {
        0
    }
}

fn read_u32(b: &[u8], i: u64) -> (r: u32)
    ensures
        r == u32_at(b@, i as int),
{
    if i <= b.len() as u64 && b.len() as u64 - i >= 4 {
        let i = i as usize;
        let v: u64 = b[i] as u64 + b[i + 1] as u64 * 256 + b[i + 2] as u64 * 65536 + b[i + 3] as u64 * 16777216;
        v as u32
    } else {
        0
    }
}

/// The bytes `from..to` of `b`, cut to its end.
pub open spec fn cut(b: Seq<u8>, from: int, to: int) -> Seq<u8> {
    let f = if from < 0 { 0 } else if from > b.len() { b.len() as int } else { from };
    let t = if to > b.len() { b.len() as int } else { to };
    if t <= f { Seq::empty() } else { b.subrange(f, t) }
}

fn cut_exec(b: &[u8], from: u64, to: u64) -> (r: Vec<u8>)
    ensures
        r@ == cut(b@, from as int, to as int),
{
    let len = b.len() as u64;
    let f = if from > len { len } else { from };
    let t = if to > len { len } else { to };
    let mut out: Vec<u8> = Vec::new();
    if t <= f {
        return out;
    }
    let fu: usize = f as usize;
    let tu: usize = t as usize;
    let mut k: usize = fu;
    while k < tu
        invariant
            fu <= k <= tu,
            tu <= b.len(),
            out@ == b@.subrange(fu as int, k as int),
        decreases tu - k,
    {
        out.push(b[k]);
        assert(b@.subrange(fu as int, k + 1) =~= b@.subrange(fu as int, k as int).push(b@[k as int]));
        k += 1;
    }
    out
}

fn append_bytes(out: &mut Vec<u8>, b: &[u8])
    ensures
        final(out)@ == old(out)@ + b@,
{
    let mut k: usize = 0;
    while k < b.len()
        invariant
            k <= b.len(),
            out@ == old(out)@ + b@.take(k as int),
        decreases b.len() - k,
    {
        out.push(b[k]);
        assert(b@.take(k + 1) =~= b@.take(k as int).push(b@[k as int]));
        k += 1;
    }
    assert(b@.take(k as int) =~= b@);
}

// ---------------------------------------------------------------- compound files

/// A sector number at or above this ends a chain (end of chain, free, FAT, DIFAT).
pub open spec fn chain_end() -> nat {
    4294967290
}

/// Block `n` of `data`: `size` bytes from `base + n * size`, cut to the end.
pub open spec fn block(data: Seq<u8>, size: nat, base: nat, n: nat) -> Seq<u8> {
    cut(data, (base + n * size) as int, (base + n * size + size) as int)
}

/// The blocks of a chain from `s`, following `table` (32-bit next numbers), at most `fuel`.
pub open spec fn chain(data: Seq<u8>, size: nat, base: nat, table: Seq<u8>, s: nat, fuel: nat) -> Seq<u8>
    decreases fuel,
{
    if fuel == 0 || s >= chain_end() {
        Seq::empty()
    } else {
        block(data, size, base, s) + chain(data, size, base, table, u32_at(table, (4 * s) as int), (fuel - 1) as nat)
    }
}

fn chain_exec(data: &[u8], size: u64, base: u64, table: &[u8], start: u32, fuel: u64) -> (r: Vec<u8>)
    requires
        size <= 4096,
        base <= 4096,
    ensures
        r@ == chain(data@, size as nat, base as nat, table@, start as nat, fuel as nat),
{
    let mut out: Vec<u8> = Vec::new();
    let mut s: u32 = start;
    let mut left: u64 = fuel;
    while left > 0 && (s as u64) < 4294967290
        invariant
            size <= 4096,
            base <= 4096,
            chain(data@, size as nat, base as nat, table@, start as nat, fuel as nat)
                == out@ + chain(data@, size as nat, base as nat, table@, s as nat, left as nat),
        decreases left,
    {
        assert((s as u64) * size <= 4294967296 * 4096) by (nonlinear_arith)
            requires
                s < 4294967296,
                size <= 4096,
        ;
        let off: u64 = base + (s as u64) * size;
        let piece = cut_exec(data, off, off + size);
        let next = read_u32(table, 4 * (s as u64));
        let ghost before = out@;
        append_bytes(&mut out, &piece);
        assert(out@ + chain(data@, size as nat, base as nat, table@, next as nat, (left - 1) as nat) =~= before
            + chain(data@, size as nat, base as nat, table@, s as nat, left as nat));
        s = next;
        left = left - 1;
    }
    assert(chain(data@, size as nat, base as nat, table@, s as nat, left as nat) == Seq::<u8>::empty());
    assert(out@ + Seq::<u8>::empty() =~= out@);
    out
}

/// The first eight bytes of every compound file.
pub open spec fn compound_signature() -> Seq<u8> {
    seq![0xD0u8, 0xCFu8, 0x11u8, 0xE0u8, 0xA1u8, 0xB1u8, 0x1Au8, 0xE1u8]
}

/// Whether `f` starts like a compound file.
pub open spec fn is_compound(f: Seq<u8>) -> bool {
    f.len() >= 512 && f.take(8) == compound_signature()
}

/// The sector size: 4096 bytes where the header says 2^12, else 512.
pub open spec fn sector_size(f: Seq<u8>) -> nat {
    if u16_at(f, 30) == 12 { 4096 } else { 512 }
}

/// The number of FAT sectors listed in the header (at most 109).
pub open spec fn fat_count(f: Seq<u8>) -> nat {
    let n = u32_at(f, 44);
    if n > 109 { 109 } else { n }
}

/// The FAT: the sectors the header lists, from the `k`-th on, one after another.
pub open spec fn fat_from(f: Seq<u8>, k: nat) -> Seq<u8>
    decreases fat_count(f) - k,
{
    if k >= fat_count(f) {
        Seq::empty()
    } else {
        block(f, sector_size(f), sector_size(f), u32_at(f, (76 + 4 * k) as int)) + fat_from(f, k + 1)
    }
}

/// Enough steps to walk any chain of sectors of the file that does not loop.
pub open spec fn sector_fuel(f: Seq<u8>) -> nat {
    f.len() / sector_size(f) + 2
}

/// The regular stream whose chain starts at `start`.
pub open spec fn regular_chain(f: Seq<u8>, start: nat) -> Seq<u8> {
    chain(f, sector_size(f), sector_size(f), fat_from(f, 0), start, sector_fuel(f))
}

/// The directory of the file: its entries of 128 bytes each.
pub open spec fn directory(f: Seq<u8>) -> Seq<u8> {
    regular_chain(f, u32_at(f, 48))
}

/// Whether directory entry `k` is named `name` (ASCII), as its UTF-16 name field says.
pub open spec fn entry_named(dir: Seq<u8>, k: nat, name: Seq<char>) -> bool {
    let e: int = (128 * k) as int;
    &&& u16_at(dir, e + 64) == 2 * (name.len() + 1)
    &&& e + 128 <= dir.len()
    &&& forall|i: int| 0 <= i < name.len() ==> #[trigger] dir[e + 2 * i] as u32 == name[i] as u32 && dir[e + 2 * i + 1] == 0
}

/// The first entry, from the `k`-th on, named `name`.
pub open spec fn find_entry(dir: Seq<u8>, name: Seq<char>, k: nat) -> Option<nat>
    decreases dir.len() / 128 - k,
{
    if k >= dir.len() / 128 {
        None
    } else if entry_named(dir, k, name) {
        Some(k)
    } else {
        find_entry(dir, name, k + 1)
    }
}

/// The first `n` bytes of `b`, or all of them.
pub open spec fn prefix(b: Seq<u8>, n: nat) -> Seq<u8> {
    if n < b.len() { b.take(n as int) } else { b }
}

/// The content of the stream described by directory entry `k`: kept in 64-byte mini sectors
/// of the root entry's stream when smaller than the header's cutoff, else in sectors.
pub open spec fn entry_content(f: Seq<u8>, dir: Seq<u8>, k: nat) -> Seq<u8> {
    let start = u32_at(dir, (128 * k + 116) as int);
    let size = u32_at(dir, (128 * k + 120) as int);
    if size < u32_at(f, 56) {
        let ministream = prefix(regular_chain(f, u32_at(dir, 116)), u32_at(dir, 120));
        let minifat = regular_chain(f, u32_at(f, 60));
        prefix(chain(ministream, 64, 0, minifat, start, ministream.len() / 64 + 2), size)
    } else {
        prefix(regular_chain(f, start), size)
    }
}

/// The stream named `name` of the compound file `f`, if it is one and has such a stream.
pub open spec fn stream_of(f: Seq<u8>, name: Seq<char>) -> Option<Seq<u8>> {
    if !is_compound(f) {
        None
    } else {
        match find_entry(directory(f), name, 0) {
            Some(k) => Some(entry_content(f, directory(f), k)),
            None => None,
        }
    }
}

fn fat_exec(f: &[u8]) -> (r: Vec<u8>)
    ensures
        r@ == fat_from(f@, 0),
{
    let ss: u64 = if read_u16(f, 30) == 12 { 4096 } else { 512 };
    let raw = read_u32(f, 44);
    let n: u64 = if raw > 109 { 109 } else { raw as u64 };
    let mut out: Vec<u8> = Vec::new();
    let mut k: u64 = 0;
    while k < n
        invariant
            n == fat_count(f@),
            ss == sector_size(f@),
            k <= n,
            fat_from(f@, 0) == out@ + fat_from(f@, k as nat),
        decreases n - k,
    {
        let s = read_u32(f, 76 + 4 * k);
        assert((s as u64) * ss <= 4294967296 * 4096) by (nonlinear_arith)
            requires
                s < 4294967296,
                ss <= 4096,
        ;
        let off: u64 = ss + (s as u64) * ss;
        let piece = cut_exec(f, off, off + ss);
        let ghost before = out@;
        append_bytes(&mut out, &piece);
        assert(out@ + fat_from(f@, (k + 1) as nat) =~= before + fat_from(f@, k as nat));
        k += 1;
    }
    assert(fat_from(f@, k as nat) == Seq::<u8>::empty());
    assert(out@ + Seq::<u8>::empty() =~= out@);
    out
}

fn entry_named_exec(dir: &[u8], k: u64, name: &[char]) -> (r: bool)
    requires
        name.len() <= 31,
    ensures
        r == entry_named(dir@, k as nat, name@),
{
    let wide: u128 = 128 * (k as u128);
    if wide + 128 > dir.len() as u128 {
        return false;
    }
    let e: u64 = wide as u64;
    if read_u16(dir, e + 64) as u64 != 2 * (name.len() as u64 + 1) {
        return false;
    }
    let eu = e as usize;
    let mut i: usize = 0;
    while i < name.len()
        invariant
            i <= name.len() <= 31,
            eu == 128 * k,
            eu + 128 <= dir.len(),
            forall|j: int| 0 <= j < i ==> #[trigger] dir@[eu + 2 * j] as u32 == name@[j] as u32 && dir@[eu + 2 * j + 1] == 0,
        decreases name.len() - i,
    {
        if dir[eu + 2 * i] as u32 != name[i] as u32 || dir[eu + 2 * i + 1] != 0 {
            return false;
        }
        i += 1;
    }
    true
}

fn find_entry_exec(dir: &[u8], name: &[char]) -> (r: Option<u64>)
    requires
        name.len() <= 31,
    ensures
        match r {
            Some(k) => find_entry(dir@, name@, 0) == Some(k as nat),
            None => find_entry(dir@, name@, 0) is None,
        },
{
    let count: u64 = dir.len() as u64 / 128;
    let mut k: u64 = 0;
    while k < count
        invariant
            name.len() <= 31,
            count == dir.len() / 128,
            k <= count,
            find_entry(dir@, name@, 0) == find_entry(dir@, name@, k as nat),
        decreases count - k,
    {
        if entry_named_exec(dir, k, name) {
            return Some(k);
        }
        k += 1;
    }
    None
}

fn prefix_exec(b: Vec<u8>, n: u32) -> (r: Vec<u8>)
    ensures
        r@ == prefix(b@, n as nat),
{
    if (n as u64) < b.len() as u64 {
        let r = cut_exec(&b, 0, n as u64);
        assert(r@ =~= b@.take(n as int));
        r
    } else {
        b
    }
}

fn entry_content_exec(f: &[u8], dir: &[u8], k: u64, fat: &[u8]) -> (r: Vec<u8>)
    requires
        fat@ == fat_from(f@, 0),
        k < dir.len() / 128,
    ensures
        r@ == entry_content(f@, dir@, k as nat),
{
    let ss: u64 = if read_u16(f, 30) == 12 { 4096 } else { 512 };
    let fuel: u64 = f.len() as u64 / ss + 2;
    let start = read_u32(dir, 128 * k + 116);
    let size = read_u32(dir, 128 * k + 120);
    if size < read_u32(f, 56) {
        let root = chain_exec(f, ss, ss, fat, read_u32(dir, 116), fuel);
        let ministream = prefix_exec(root, read_u32(dir, 120));
        let minifat = chain_exec(f, ss, ss, fat, read_u32(f, 60), fuel);
        let mfuel: u64 = ministream.len() as u64 / 64 + 2;
        let content = chain_exec(&ministream, 64, 0, &minifat, start, mfuel);
        prefix_exec(content, size)
    } else {
        let content = chain_exec(f, ss, ss, fat, start, fuel);
        prefix_exec(content, size)
    }
}

fn has_signature(f: &[u8]) -> (r: bool)
    ensures
        r == is_compound(f@),
{
    if f.len() < 512 {
        return false;
    }
    let sig = f[0] == 0xD0 && f[1] == 0xCF && f[2] == 0x11 && f[3] == 0xE0 && f[4] == 0xA1 && f[5] == 0xB1
        && f[6] == 0x1A && f[7] == 0xE1;
    proof {
        if sig {
            assert(f@.take(8) =~= compound_signature());
        } else {
            assert(f@.take(8) != compound_signature()) by {
                if f@.take(8) == compound_signature() {
                    assert(f@.take(8)[0] == f@[0] && f@.take(8)[1] == f@[1] && f@.take(8)[2] == f@[2]);
                    assert(f@.take(8)[3] == f@[3] && f@.take(8)[4] == f@[4] && f@.take(8)[5] == f@[5]);
                    assert(f@.take(8)[6] == f@[6] && f@.take(8)[7] == f@[7]);
                }
            }
        }
    }
    sig
}

/// The stream named `name` (ASCII, at most 31 characters) of the compound file `f`.
pub fn read_stream(f: &[u8], name: &str) -> (r: Option<Vec<u8>>)
    requires
        name@.len() <= 31,
    ensures
        match r {
            Some(v) => stream_of(f@, name@) == Some(v@),
            None => stream_of(f@, name@) is None,
        },
{
    if !has_signature(f) {
        return None;
    }
    let ss: u64 = if read_u16(f, 30) == 12 { 4096 } else { 512 };
    let fuel: u64 = f.len() as u64 / ss + 2;
    let fat = fat_exec(f);
    let dir = chain_exec(f, ss, ss, &fat, read_u32(f, 48), fuel);
    let chars = crate::text::to_chars(name);
    match find_entry_exec(&dir, &chars) {
        Some(k) => {
            proof {
                lemma_find_entry_bound(dir@, name@, 0);
            }
            Some(entry_content_exec(f, &dir, k, &fat))
        },
        None => None,
    }
}

proof fn lemma_find_entry_bound(dir: Seq<u8>, name: Seq<char>, k: nat)
    ensures
        find_entry(dir, name, k) matches Some(i) ==> i < dir.len() / 128,
    decreases dir.len() / 128 - k,
{
    if k < dir.len() / 128 && !entry_named(dir, k, name) {
        lemma_find_entry_bound(dir, name, k + 1);
    }
}

// ---------------------------------------------------------------- UTF-16 text

/// The 16-bit code units of `b`, read little-endian two bytes at a time.
pub open spec fn le_units(b: Seq<u8>) -> Seq<u16> {
    Seq::new(b.len() / 2, |i: int| (b[2 * i] as nat + b[2 * i + 1] as nat * 256) as u16)
}

/// The bytes of `b` as code units of the same value (Latin-1 text).
pub open spec fn widen(b: Seq<u8>) -> Seq<u16> {
    b.map_values(|x: u8| x as u16)
}

fn le_units_exec(b: &[u8]) -> (r: Vec<u16>)
    ensures
        r@ == le_units(b@),
{
    let n = b.len() / 2;
    let mut out: Vec<u16> = Vec::new();
    let mut i: usize = 0;
    while i < n
        invariant
            n == b.len() / 2,
            i <= n,
            out@.len() == i,
            forall|j: int| 0 <= j < i ==> #[trigger] out@[j] == (b@[2 * j] as nat + b@[2 * j + 1] as nat * 256) as u16,
        decreases n - i,
    {
        out.push(b[2 * i] as u16 + b[2 * i + 1] as u16 * 256);
        i += 1;
    }
    assert(out@ =~= le_units(b@));
    out
}

fn widen_exec(b: &[u8]) -> (r: Vec<u16>)
    ensures
        r@ == widen(b@),
{
    let mut out: Vec<u16> = Vec::new();
    let mut i: usize = 0;
    while i < b.len()
        invariant
            i <= b.len(),
            out@.len() == i,
            forall|j: int| 0 <= j < i ==> #[trigger] out@[j] == b@[j] as u16,
        decreases b.len() - i,
    {
        out.push(b[i] as u16);
        i += 1;
    }
    assert(out@ =~= widen(b@));
    out
}

fn append_units(out: &mut Vec<u16>, u: &[u16])
    ensures
        final(out)@ == old(out)@ + u@,
{
    let mut k: usize = 0;
    while k < u.len()
        invariant
            k <= u.len(),
            out@ == old(out)@ + u@.take(k as int),
        decreases u.len() - k,
    {
        out.push(u[k]);
        assert(u@.take(k + 1) =~= u@.take(k as int).push(u@[k as int]));
        k += 1;
    }
    assert(u@.take(k as int) =~= u@);
}

// ---------------------------------------------------------------- PowerPoint

/// The text of the records of a PowerPoint stream from `pos`: containers are entered, the
/// text atoms (UTF-16 and 8-bit) give their text, each followed by a line break, and other
/// records are passed over.
pub open spec fn ppt_units(s: Seq<u8>, pos: nat, fuel: nat) -> Seq<u16>
    decreases fuel,
{
    if fuel == 0 || pos + 8 > s.len() {
        Seq::empty()
    } else {
        let ver = u16_at(s, pos as int) % 16;
        let ty = u16_at(s, (pos + 2) as int);
        let len = u32_at(s, (pos + 4) as int);
        if ver == 15 {
            ppt_units(s, pos + 8, (fuel - 1) as nat)
        } else {
            let body = cut(s, (pos + 8) as int, (pos + 8 + len) as int);
            let piece = if ty == 4000 { le_units(body) } else if ty == 4008 { widen(body) } else { Seq::empty() };
            (if piece.len() > 0 { piece.push(10u16) } else { piece }) + ppt_units(s, pos + 8 + len, (fuel - 1) as nat)
        }
    }
}

/// The text of a PowerPoint document stream, as UTF-16 code units.
pub fn ppt_units_exec(s: &[u8]) -> (r: Vec<u16>)
    ensures
        r@ == ppt_units(s@, 0, s@.len()),
{
    let mut out: Vec<u16> = Vec::new();
    let mut pos: u128 = 0;
    let mut left: u64 = s.len() as u64;
    while left > 0 && pos <= s.len() as u128 && s.len() as u128 - pos >= 8
        invariant
            ppt_units(s@, 0, s@.len()) == out@ + ppt_units(s@, pos as nat, left as nat),
        decreases left,
    {
        let p: u64 = pos as u64;
        let ver = read_u16(s, p) % 16;
        let ty = read_u16(s, p + 2);
        let len = read_u32(s, p + 4);
        if ver == 15 {
            pos = pos + 8;
        } else {
            let end: u128 = pos + 8 + len as u128;
            let end64: u64 = if end > s.len() as u128 { s.len() as u64 } else { end as u64 };
            let body = cut_exec(s, p + 8, end64);
            assert(body@ == cut(s@, (pos + 8) as int, end as int));
            let mut piece: Vec<u16> = if ty == 4000 {
                le_units_exec(&body)
            } else if ty == 4008 {
                widen_exec(&body)
            } else {
                Vec::new()
            };
            if piece.len() > 0 {
                piece.push(10u16);
            }
            let ghost before = out@;
            append_units(&mut out, &piece);
            assert(out@ + ppt_units(s@, end as nat, (left - 1) as nat) =~= before + ppt_units(
                s@,
                pos as nat,
                left as nat,
            ));
            pos = end;
        }
        left = left - 1;
    }
    assert(ppt_units(s@, pos as nat, left as nat) == Seq::<u16>::empty());
    assert(out@ + Seq::<u16>::empty() =~= out@);
    out
}

// ---------------------------------------------------------------- Excel

/// The body of the first record of type `ty` from `pos` on (each record: type, length, body).
pub open spec fn find_record(s: Seq<u8>, pos: nat, ty: nat, fuel: nat) -> Option<Seq<u8>>
    decreases fuel,
{
    if fuel == 0 || pos + 4 > s.len() {
        None
    } else if u16_at(s, pos as int) == ty {
        Some(cut(s, (pos + 4) as int, (pos + 4 + u16_at(s, (pos + 2) as int)) as int))
    } else {
        find_record(s, pos + 4 + u16_at(s, (pos + 2) as int), ty, (fuel - 1) as nat)
    }
}

/// The strings of a shared-string table from `pos`, at most `count`, each followed by a line
/// break: its characters as 16-bit units or as bytes, by its flags, passing over its
/// formatting runs and extended data.
pub open spec fn sst_units(b: Seq<u8>, pos: nat, count: nat) -> Seq<u16>
    decreases count,
{
    if count == 0 || pos + 3 > b.len() {
        Seq::empty()
    } else {
        let cch = u16_at(b, pos as int);
        let flags = b[(pos + 2) as int] as nat;
        let high = flags % 2 == 1;
        let ext = (flags / 4) % 2 == 1;
        let rich = (flags / 8) % 2 == 1;
        let p1 = pos + 3;
        let runs = if rich { u16_at(b, p1 as int) } else { 0 };
        let p2 = if rich { p1 + 2 } else { p1 };
        let extlen = if ext { u32_at(b, p2 as int) } else { 0 };
        let p3 = if ext { p2 + 4 } else { p2 };
        let nbytes = if high { 2 * cch } else { cch };
        let chars = cut(b, p3 as int, (p3 + nbytes) as int);
        let units = if high { le_units(chars) } else { widen(chars) };
        units.push(10u16) + sst_units(b, p3 + nbytes + 4 * runs + extlen, (count - 1) as nat)
    }
}

/// The text of an Excel workbook stream: the strings of its shared-string table.
pub open spec fn xls_units(s: Seq<u8>) -> Seq<u16> {
    match find_record(s, 0, 252, s.len()) {
        Some(body) => sst_units(body, 8, if u32_at(body, 4) < body.len() { u32_at(body, 4) } else { body.len() }),
        None => Seq::empty(),
    }
}

fn find_record_exec(s: &[u8], ty: u32) -> (r: Option<Vec<u8>>)
    ensures
        match r {
            Some(v) => find_record(s@, 0, ty as nat, s@.len()) == Some(v@),
            None => find_record(s@, 0, ty as nat, s@.len()) is None,
        },
{
    let mut pos: u128 = 0;
    let mut left: u64 = s.len() as u64;
    while left > 0 && pos <= s.len() as u128 && s.len() as u128 - pos >= 4
        invariant
            find_record(s@, 0, ty as nat, s@.len()) == find_record(s@, pos as nat, ty as nat, left as nat),
        decreases left,
    {
        let p: u64 = pos as u64;
        let t = read_u16(s, p);
        let l = read_u16(s, p + 2);
        let end: u128 = pos + 4 + l as u128;
        if t == ty {
            let end64: u64 = if end > s.len() as u128 { s.len() as u64 } else { end as u64 };
            let body = cut_exec(s, p + 4, end64);
            assert(body@ == cut(s@, (pos + 4) as int, end as int));
            return Some(body);
        }
        pos = end;
        left = left - 1;
    }
    None
}

fn sst_units_exec(b: &[u8], count: u64) -> (r: Vec<u16>)
    ensures
        r@ == sst_units(b@, 8, count as nat),
{
    let mut out: Vec<u16> = Vec::new();
    let mut pos: u128 = 8;
    let mut left: u64 = count;
    while left > 0 && pos <= b.len() as u128 && b.len() as u128 - pos >= 3
        invariant
            sst_units(b@, 8, count as nat) == out@ + sst_units(b@, pos as nat, left as nat),
        decreases left,
    {
        let p: u64 = pos as u64;
        let cch = read_u16(b, p);
        let flags = b[(p + 2) as usize];
        let high = flags % 2 == 1;
        let ext = (flags / 4) % 2 == 1;
        let rich = (flags / 8) % 2 == 1;
        let p1: u128 = pos + 3;
        let runs: u32 = if rich { read_u16(b, p1 as u64) } else { 0 };
        let p2: u128 = if rich { p1 + 2 } else { p1 };
        let p2r: u64 = if p2 > b.len() as u128 { b.len() as u64 } else { p2 as u64 };
        let extlen: u32 = if ext { read_u32(b, p2r) } else { 0 };
        assert(ext ==> extlen == u32_at(b@, p2 as int));
        let p3: u128 = if ext { p2 + 4 } else { p2 };
        let nbytes: u128 = if high { 2 * cch as u128 } else { cch as u128 };
        let from: u64 = if p3 > b.len() as u128 { b.len() as u64 } else { p3 as u64 };
        let to: u64 = if p3 + nbytes > b.len() as u128 { b.len() as u64 } else { (p3 + nbytes) as u64 };
        let chars = cut_exec(b, from, to);
        assert(chars@ == cut(b@, p3 as int, (p3 + nbytes) as int));
        let mut units: Vec<u16> = if high { le_units_exec(&chars) } else { widen_exec(&chars) };
        units.push(10u16);
        let ghost before = out@;
        append_units(&mut out, &units);
        let next: u128 = p3 + nbytes + 4 * runs as u128 + extlen as u128;
        assert(out@ + sst_units(b@, next as nat, (left - 1) as nat) =~= before + sst_units(b@, pos as nat, left as nat));
        pos = next;
        left = left - 1;
    }
    assert(sst_units(b@, pos as nat, left as nat) == Seq::<u16>::empty());
    assert(out@ + Seq::<u16>::empty() =~= out@);
    out
}

/// The text of an Excel workbook stream, as UTF-16 code units.
pub fn xls_units_exec(s: &[u8]) -> (r: Vec<u16>)
    ensures
        r@ == xls_units(s@),
{
    match find_record_exec(s, 252) {
        Some(body) => {
            let n = read_u32(&body, 4);
            let count: u64 = if (n as u64) < body.len() as u64 { n as u64 } else { body.len() as u64 };
            sst_units_exec(&body, count)
        },
        None => Vec::new(),
    }
}

// ---------------------------------------------------------------- Word

/// The position after the property entries (type 1) that open a CLX, from `p` on.
pub open spec fn skip_prc(clx: Seq<u8>, p: nat, fuel: nat) -> nat
    decreases fuel,
{
    if fuel == 0 || p >= clx.len() || clx[p as int] != 1 {
        p
    } else {
        skip_prc(clx, p + 3 + u16_at(clx, (p + 1) as int), (fuel - 1) as nat)
    }
}

/// The text of pieces `i..n` of a piece table: piece `i` spans characters `cp[i]..cp[i+1]`
/// and is stored at its file position in the WordDocument stream `w`, as 8-bit characters
/// when its position is marked compressed (then at half the position), else as 16-bit units.
pub open spec fn pieces_units(w: Seq<u8>, plc: Seq<u8>, n: nat, i: nat) -> Seq<u16>
    decreases n - i,
{
    if i >= n {
        Seq::empty()
    } else {
        let cp0 = u32_at(plc, (4 * i) as int);
        let cp1 = u32_at(plc, (4 * (i + 1)) as int);
        let count: nat = if cp1 > cp0 { (cp1 - cp0) as nat } else { 0 };
        let fc = u32_at(plc, (4 * (n + 1) + 8 * i + 2) as int);
        let units = if (fc / 1073741824) % 2 == 1 {
            let off = (fc % 1073741824) / 2;
            widen(cut(w, off as int, (off + count) as int))
        } else {
            le_units(cut(w, fc as int, (fc + 2 * count) as int))
        };
        units + pieces_units(w, plc, n, i + 1)
    }
}

/// The text of a Word document from its WordDocument stream `w` and its table stream: the
/// pieces of the piece table that the CLX at the FIB's fcClx/lcbClx holds.
pub open spec fn doc_units(w: Seq<u8>, table: Seq<u8>) -> Seq<u16> {
    let fc_clx = u32_at(w, 418);
    let clx = cut(table, fc_clx as int, (fc_clx + u32_at(w, 422)) as int);
    let p = skip_prc(clx, 0, clx.len());
    if p < clx.len() && clx[p as int] == 2 {
        let lcb = u32_at(clx, (p + 1) as int);
        let plc = cut(clx, (p + 5) as int, (p + 5 + lcb) as int);
        let n: nat = if lcb >= 4 { ((lcb - 4) / 12) as nat } else { 0 };
        pieces_units(w, plc, n, 0)
    } else {
        Seq::empty()
    }
}

/// The table stream a Word document names in its FIB: "1Table" or "0Table".
pub open spec fn table_name(w: Seq<u8>) -> Seq<char> {
    if (u16_at(w, 10) / 512) % 2 == 1 { "1Table"@ } else { "0Table"@ }
}

fn skip_prc_exec(clx: &[u8]) -> (r: u128)
    ensures
        r == skip_prc(clx@, 0, clx@.len()),
{
    let mut p: u128 = 0;
    let mut left: u64 = clx.len() as u64;
    while left > 0 && p < clx.len() as u128 && clx[p as usize] == 1
        invariant
            skip_prc(clx@, 0, clx@.len()) == skip_prc(clx@, p as nat, left as nat),
            p <= clx.len() + 65538,
        decreases left,
    {
        let l = read_u16(clx, p as u64 + 1);
        p = p + 3 + l as u128;
        left = left - 1;
    }
    p
}

fn pieces_units_exec(w: &[u8], plc: &[u8], n: u64) -> (r: Vec<u16>)
    requires
        n <= 400000000,
    ensures
        r@ == pieces_units(w@, plc@, n as nat, 0),
{
    let mut out: Vec<u16> = Vec::new();
    let mut i: u64 = 0;
    while i < n
        invariant
            i <= n <= 400000000,
            pieces_units(w@, plc@, n as nat, 0) == out@ + pieces_units(w@, plc@, n as nat, i as nat),
        decreases n - i,
    {
        let cp0 = read_u32(plc, 4 * i);
        let cp1 = read_u32(plc, 4 * (i + 1));
        let count: u64 = if cp1 > cp0 { (cp1 - cp0) as u64 } else { 0 };
        let fc = read_u32(plc, 4 * (n + 1) + 8 * i + 2);
        let units = if (fc / 1073741824) % 2 == 1 {
            let off: u64 = ((fc % 1073741824) / 2) as u64;
            widen_exec(&cut_exec(w, off, off + count))
        } else {
            le_units_exec(&cut_exec(w, fc as u64, fc as u64 + 2 * count))
        };
        let ghost before = out@;
        append_units(&mut out, &units);
        assert(out@ + pieces_units(w@, plc@, n as nat, (i + 1) as nat) =~= before + pieces_units(w@, plc@, n as nat, i as nat));
        i += 1;
    }
    assert(out@ + Seq::<u16>::empty() =~= out@);
    out
}

/// The text of a Word document from its WordDocument and table streams, as UTF-16 code units.
pub fn doc_units_exec(w: &[u8], table: &[u8]) -> (r: Vec<u16>)
    ensures
        r@ == doc_units(w@, table@),
{
    let fc_clx = read_u32(w, 418) as u64;
    let clx = cut_exec(table, fc_clx, fc_clx + read_u32(w, 422) as u64);
    let p128 = skip_prc_exec(&clx);
    if p128 < clx.len() as u128 && clx[p128 as usize] == 2 {
        let p: u64 = p128 as u64;
        let lcb = read_u32(&clx, p + 1) as u64;
        let plc = cut_exec(&clx, p + 5, p + 5 + lcb);
        let n: u64 = if lcb >= 4 { (lcb - 4) / 12 } else { 0 };
        pieces_units_exec(w, &plc, n)
    } else {
        Vec::new()
    }
}

} // verus!
