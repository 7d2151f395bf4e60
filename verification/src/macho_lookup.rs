//! Looking `_GWorld` and the UUID up in the game's Mach-O file through
//! goblin: which architecture of a fat file is read, and how the symbol
//! table is searched.

use vstd::prelude::*;
use vstd::string::*;
use crate::mac_image::{
    hex_pairs, opt_view, spec_cached_symbol, uuid_hex, GworldSymbolCache, GworldSymbolCacheEntry,
};
use crate::macho_entry::{be_u32_at, entry_point_fits, entry_point_fits_at, is_mach_magic, read_be_u32, FAT_MAGIC};

verus! {

#[verifier::external_type_specification]
#[verifier::external_body]
pub struct ExMachO<'a>(goblin::mach::MachO<'a>);

#[verifier::external_type_specification]
#[verifier::external_body]
pub struct ExMultiArch<'a>(goblin::mach::MultiArch<'a>);

#[verifier::external_type_specification]
#[verifier::external_body]
pub struct ExSymbolIterator<'a>(goblin::mach::symbols::SymbolIterator<'a>);

#[verifier::external_type_specification]
#[verifier::external_body]
pub struct ExNlist(goblin::mach::symbols::Nlist);

#[verifier::external_type_specification]
#[verifier::external_body]
pub struct ExGoblinError(goblin::error::Error);

/// A parsed Mach-O file: one binary, or a fat file of several.
pub enum MachFile<'a> {
    Binary(goblin::mach::MachO<'a>),
    Fat(goblin::mach::MultiArch<'a>),
}

/// What `MachO::parse` makes of the image at `offset` in `bytes`: `None`
/// when the parse fails, else the image's symbol table and load-command
/// UUIDs, as `macho_symbols` and `macho_uuids` read them.
pub uninterp spec fn macho_parse(bytes: Seq<u8>, offset: int) -> Option<(Seq<Option<(Seq<char>, u64)>>, Seq<Option<Seq<u8>>>)>;

/// The bytes a fat container holds: the whole file it was parsed from.
pub uninterp spec fn fat_bytes(f: goblin::mach::MultiArch) -> Seq<u8>;

/// `nfat_arch` of a fat file: its big-endian `u32` at byte 4.
pub open spec fn fat_arch_total(data: Seq<u8>) -> int {
    be_u32_at(data, 4)
}

/// Byte position of the `i`-th 20-byte `fat_arch` record.
pub open spec fn fat_record(i: int) -> int {
    8 + 20 * i
}

/// The `i`-th record lies inside the file.
pub open spec fn fat_record_fits(data: Seq<u8>, i: int) -> bool {
    0 <= i && fat_record(i) + 20 <= data.len()
}

/// The bytes of the `i`-th architecture: `size` bytes from `offset` of its
/// record, or nothing when they do not lie inside the file.
pub open spec fn arch_slice(data: Seq<u8>, i: int) -> Seq<u8> {
    if !fat_record_fits(data, i) {
        Seq::empty()
    } else {
        let off = be_u32_at(data, fat_record(i) + 8);
        let size = be_u32_at(data, fat_record(i) + 12);
        if off + size <= data.len() {
            data.subrange(off, off + size)
        } else {
            Seq::empty()
        }
    }
}

/// The `i`-th architecture is a Mach-O image by its first bytes (goblin
/// looks at 16 of them).
pub open spec fn arch_is_macho(data: Seq<u8>, i: int) -> bool {
    &&& 0 <= i < fat_arch_total(data)
    &&& fat_record_fits(data, i)
    &&& arch_slice(data, i).len() >= 16
    &&& is_mach_magic(be_u32_at(arch_slice(data, i), 0))
}

/// goblin's `find_cputype` from record `i` on: `None` when a record cannot
/// be read, `Some(None)` when none has `cputype`, else `Some(Some(offset))`
/// of the first that has it.
pub open spec fn fat_find_cputype(data: Seq<u8>, n: int, i: int, cputype: u32) -> Option<Option<u32>>
    decreases n - i,
{
    if i < 0 || i >= n {
        Some(None)
    } else if !fat_record_fits(data, i) {
        None
    } else if be_u32_at(data, fat_record(i)) == cputype {
        Some(Some(be_u32_at(data, fat_record(i) + 8) as u32))
    } else {
        fat_find_cputype(data, n, i + 1, cputype)
    }
}

/// Calls `goblin::mach::Mach::parse`: fewer than four bytes fail; a file
/// starting with `FAT_MAGIC` becomes a fat container over `bytes` when its
/// 8-byte header is there; anything else is parsed as one image at offset
/// 0. `requires` keeps out the images on which goblin's entry-address
/// arithmetic overflows.
#[verifier::external_body]
fn parse_mach<'a>(bytes: &'a [u8]) -> (r: Result<MachFile<'a>, goblin::error::Error>)
    requires
        entry_point_fits(bytes@, 0),
    ensures
        bytes@.len() < 4 ==> r is Err,
        bytes@.len() >= 4 && 8 > bytes@.len() && be_u32_at(bytes@, 0) == FAT_MAGIC ==> r is Err,
        bytes@.len() >= 8 && be_u32_at(bytes@, 0) == FAT_MAGIC ==> match r {
            Ok(MachFile::Fat(f)) => fat_bytes(f) == bytes@,
            _ => false,
        },
        bytes@.len() >= 4 && be_u32_at(bytes@, 0) != FAT_MAGIC ==> (match macho_parse(bytes@, 0) {
            None => r is Err,
            Some(p) => (r matches Ok(MachFile::Binary(m)) && macho_symbols(m) == p.0 && macho_uuids(m) == p.1),
        }),
{
    match goblin::mach::Mach::parse(bytes) {
        Ok(goblin::mach::Mach::Binary(m)) => Ok(MachFile::Binary(m)),
        Ok(goblin::mach::Mach::Fat(f)) => Ok(MachFile::Fat(f)),
        Err(e) => Err(e),
    }
}

/// Calls `goblin::mach::MachO::parse` on the image starting at `offset`.
/// `requires` keeps out the images on which goblin's entry-address
/// arithmetic overflows.
#[verifier::external_body]
fn parse_macho_at<'a>(bytes: &'a [u8], offset: usize) -> (r: Result<goblin::mach::MachO<'a>, goblin::error::Error>)
    requires
        entry_point_fits(bytes@, offset as int),
    ensures
        match macho_parse(bytes@, offset as int) {
            None => r is Err,
            Some(p) => r matches Ok(m) && macho_symbols(m) == p.0 && macho_uuids(m) == p.1,
        },
{
    goblin::mach::MachO::parse(bytes, offset)
}

/// Calls `MultiArch::find_cputype` and hands back the found architecture's
/// `offset` field: the records are read in order, a record that cannot be
/// read fails the search, and the first with `cputype` wins.
#[verifier::external_body]
fn fat_offset_for_cputype(fat: &goblin::mach::MultiArch, cputype: u32) -> (r: Result<Option<u32>, goblin::error::Error>)
    ensures
        fat_bytes(*fat).len() >= 8 ==> match fat_find_cputype(
            fat_bytes(*fat),
            fat_arch_total(fat_bytes(*fat)),
            0,
            cputype,
        ) {
            None => r is Err,
            Some(x) => r matches Ok(y) && y == x,
        },
{
    match fat.find_cputype(cputype) {
        Ok(Some(arch)) => Ok(Some(arch.offset)),
        Ok(None) => Ok(None),
        Err(e) => Err(e),
    }
}

/// The `narches` field of a fat file: its `nfat_arch`.
#[verifier::external_body]
fn fat_arch_count(fat: &goblin::mach::MultiArch) -> (r: usize)
    ensures
        fat_bytes(*fat).len() >= 8 ==> r == fat_arch_total(fat_bytes(*fat)),
{
    fat.narches
}

/// Calls `MultiArch::get` for architecture `index`: the image when the
/// architecture's bytes start as a Mach-O image and parse, `None` for an
/// archive, an error otherwise. `requires` keeps out the images on which
/// goblin's entry-address arithmetic overflows.
#[verifier::external_body]
fn fat_macho_at<'a>(fat: &goblin::mach::MultiArch<'a>, index: usize) -> (r: Result<
    Option<goblin::mach::MachO<'a>>,
    goblin::error::Error,
>)
    requires
        entry_point_fits(arch_slice(fat_bytes(*fat), index as int), 0),
    ensures
        r matches Ok(Some(m)) ==> arch_is_macho(fat_bytes(*fat), index as int) && macho_parse(
            arch_slice(fat_bytes(*fat), index as int),
            0,
        ) == Some((macho_symbols(m), macho_uuids(m))),
        arch_is_macho(fat_bytes(*fat), index as int) ==> match macho_parse(
            arch_slice(fat_bytes(*fat), index as int),
            0,
        ) {
            None => r is Err,
            Some(p) => r matches Ok(Some(m)) && macho_symbols(m) == p.0 && macho_uuids(m) == p.1,
        },
{
    match fat.get(index) {
        Ok(goblin::mach::SingleArch::MachO(m)) => Ok(Some(m)),
        Ok(goblin::mach::SingleArch::Archive(_)) => Ok(None),
        Err(e) => Err(e),
    }
}

/// What the symbol table of `m` holds, in the order goblin reads it: per
/// entry its name and `n_value`, `None` for an entry that cannot be read.
pub uninterp spec fn macho_symbols(m: goblin::mach::MachO) -> Seq<Option<(Seq<char>, u64)>>;

/// What a symbol-table iterator has still to hand out, in order, in the
/// same form as `macho_symbols`.
pub uninterp spec fn symbol_items(it: goblin::mach::symbols::SymbolIterator) -> Seq<Option<(Seq<char>, u64)>>;

/// What the load commands of `m` hold, in order: the 16 bytes of each
/// `LC_UUID` command, `None` for every other kind.
pub uninterp spec fn macho_uuids(m: goblin::mach::MachO) -> Seq<Option<Seq<u8>>>;

/// Calls `MachO::symbols`: an iterator that hands out the whole symbol
/// table of `m`.
#[verifier::external_body]
fn symbol_iter<'a>(m: &goblin::mach::MachO<'a>) -> (r: goblin::mach::symbols::SymbolIterator<'a>)
    ensures
        symbol_items(r) == macho_symbols(*m),
{
    m.symbols()
}

/// Calls `Iterator::next` on the symbol table. goblin's iterator counts
/// the entries it has handed out and answers `None` once all are out; each
/// call hands out the next one: its name and `n_value`, or an error for an
/// entry that cannot be read.
#[verifier::external_body]
fn next_symbol(it: &mut goblin::mach::symbols::SymbolIterator) -> (r: Option<
    Result<(String, u64), goblin::error::Error>,
>)
    ensures
        symbol_items(*old(it)).len() == 0 ==> r is None && symbol_items(*final(it)) == symbol_items(
            *old(it),
        ),
        symbol_items(*old(it)).len() > 0 ==> symbol_items(*final(it)) == symbol_items(
            *old(it),
        ).drop_first(),
        symbol_items(*old(it)).len() > 0 ==> match symbol_items(*old(it))[0] {
            Some(item) => r matches Some(Ok(p)) && p.0@ == item.0 && p.1 == item.1,
            None => r matches Some(Err(_)),
        },
{
    match it.next() {
        Some(Ok((name, nlist))) => Some(Ok((name.to_string(), nlist.n_value))),
        Some(Err(e)) => Some(Err(e)),
        None => None,
    }
}

/// The UUID of each load command of `m`, in order: the 16 bytes of an
/// `LC_UUID` command (an array of 16 in goblin), `None` for every other kind.
#[verifier::external_body]
fn load_command_uuids(m: &goblin::mach::MachO) -> (r: Vec<Option<Vec<u8>>>)
    ensures
        r@.len() == macho_uuids(*m).len(),
        forall|i: int|
            0 <= i < r@.len() ==> match #[trigger] r@[i] {
                Some(u) => macho_uuids(*m)[i] == Some(u@),
                None => macho_uuids(*m)[i] is None,
            },
        forall|i: int|
            0 <= i < r@.len() ==> (#[trigger] macho_uuids(*m)[i] matches Some(u) ==> u.len() == 16),
{
    m.load_commands
        .iter()
        .map(|c| match &c.command {
            goblin::mach::load_command::CommandVariant::Uuid(u) => Some(u.uuid.to_vec()),
            _ => None,
        })
        .collect()
}

/// The text reported when the symbol is not in the table.
pub open spec fn symbol_missing_text(symbol: Seq<char>) -> Seq<char> {
    symbol + " 심볼을 찾지 못했습니다."@
}

/// The outcome of searching `items` for `symbol` from the front: `None`
/// when no entry has the name, `Some(None)` when an unreadable entry comes
/// first, else `Some(Some(value))` of the first entry that has the name.
pub open spec fn symbol_search(items: Seq<Option<(Seq<char>, u64)>>, symbol: Seq<char>) -> Option<
    Option<u64>,
>
    decreases items.len(),
{
    if items.len() == 0 {
        None
    } else {
        match items[0] {
            None => Some(None),
            Some(item) => if item.0 == symbol {
                Some(Some(item.1))
            } else {
                symbol_search(items.drop_first(), symbol)
            },
        }
    }
}

/// Looks `symbol` up in the symbol table of `m` and returns its value: the
/// first entry with that name wins, and an unreadable entry met before it
/// fails the lookup.
pub fn symbol_address_from_macho(m: &goblin::mach::MachO, symbol: &str) -> (r: Result<u64, String>)
    ensures
        match symbol_search(macho_symbols(*m), symbol@) {
            None => r matches Err(e) && e@ == symbol_missing_text(symbol@),
            Some(None) => r matches Err(e) && e@ == "Mach-O 심볼 읽기 실패"@,
            Some(Some(v)) => r matches Ok(a) && a == v,
        },
        r matches Err(e) ==> e@ == "Mach-O 심볼 읽기 실패"@ || e@ == symbol_missing_text(symbol@),
{
    let wanted = String::from_str(symbol);
    let mut it = symbol_iter(m);
    loop
        invariant
            wanted@ == symbol@,
            symbol_search(symbol_items(it), symbol@) == symbol_search(macho_symbols(*m), symbol@),
        decreases symbol_items(it).len(),
    {
        let ghost before = symbol_items(it);
        match next_symbol(&mut it) {
            None => {
                let mut msg = String::from_str(symbol);
                msg.append(" 심볼을 찾지 못했습니다.");
                return Err(msg);
            },
            Some(Err(_)) => {
                return Err(String::from_str("Mach-O 심볼 읽기 실패"));
            },
            Some(Ok((name, value))) => {
                if name == wanted {
                    return Ok(value);
                }
                assert(symbol_items(it) == before.drop_first());
            },
        }
    }
}

/// The texts a failed lookup in a whole file reports.
pub open spec fn lookup_error_text(e: Seq<char>, symbol: Seq<char>) -> bool {
    ||| e == "Mach-O 파싱 실패"@
    ||| e == "Fat Mach-O 탐색 실패"@
    ||| e == "Mach-O arch 파싱 실패"@
    ||| e == "Mach-O 심볼 읽기 실패"@
    ||| e == symbol_missing_text(symbol)
    ||| e == arch_missing_text(symbol)
}

/// The text reported when no architecture of a fat file has the symbol.
pub open spec fn arch_missing_text(symbol: Seq<char>) -> Seq<char> {
    "현재 CPU arch에서 "@ + symbol + " 심볼을 찾지 못했습니다."@
}

/// The lookup of `symbol` in one symbol table: its value, or the text of
/// the failure.
pub open spec fn lookup_result(syms: Seq<Option<(Seq<char>, u64)>>, symbol: Seq<char>) -> Result<u64, Seq<char>> {
    match symbol_search(syms, symbol) {
        None => Err(symbol_missing_text(symbol)),
        Some(None) => Err("Mach-O 심볼 읽기 실패"@),
        Some(Some(v)) => Ok(v),
    }
}

/// What architecture `i` of a fat file gives when tried in turn: the parsed
/// image when it is a Mach-O image that parses (and is clear of goblin's
/// entry-address overflow), else nothing.
pub open spec fn arch_image(data: Seq<u8>, i: int) -> Option<(Seq<Option<(Seq<char>, u64)>>, Seq<Option<Seq<u8>>>)> {
    if arch_is_macho(data, i) && entry_point_fits(arch_slice(data, i), 0) {
        macho_parse(arch_slice(data, i), 0)
    } else {
        None
    }
}

/// Trying the architectures from `i` on in order: the first that has the
/// symbol gives its value.
pub open spec fn fat_symbol_scan(data: Seq<u8>, i: int, symbol: Seq<char>) -> Result<u64, Seq<char>>
    decreases fat_arch_total(data) - i,
{
    if i < 0 || i >= fat_arch_total(data) {
        Err(arch_missing_text(symbol))
    } else {
        match arch_image(data, i) {
            Some(p) => match lookup_result(p.0, symbol) {
                Ok(v) => Ok(v),
                Err(_) => fat_symbol_scan(data, i + 1, symbol),
            },
            None => fat_symbol_scan(data, i + 1, symbol),
        }
    }
}

/// The lookup in a fat file: the architecture of `cputype` when a record
/// has it, else every architecture in turn.
pub open spec fn fat_symbol_address(data: Seq<u8>, symbol: Seq<char>, cputype: u32) -> Result<u64, Seq<char>> {
    match fat_find_cputype(data, fat_arch_total(data), 0, cputype) {
        None => Err("Fat Mach-O 탐색 실패"@),
        Some(Some(off)) => if !entry_point_fits(data, off as int) {
            Err("Mach-O arch 파싱 실패"@)
        } else {
            match macho_parse(data, off as int) {
                None => Err("Mach-O arch 파싱 실패"@),
                Some(p) => lookup_result(p.0, symbol),
            }
        },
        Some(None) => fat_symbol_scan(data, 0, symbol),
    }
}

/// The lookup of `symbol` in the Mach-O file `bytes`. An image on which
/// goblin's entry-address arithmetic would overflow counts as one that does
/// not parse.
pub open spec fn spec_symbol_address(bytes: Seq<u8>, symbol: Seq<char>, cputype: u32) -> Result<u64, Seq<char>> {
    if !entry_point_fits(bytes, 0) || bytes.len() < 4 {
        Err("Mach-O 파싱 실패"@)
    } else if be_u32_at(bytes, 0) == FAT_MAGIC {
        if bytes.len() < 8 {
            Err("Mach-O 파싱 실패"@)
        } else {
            fat_symbol_address(bytes, symbol, cputype)
        }
    } else {
        match macho_parse(bytes, 0) {
            None => Err("Mach-O 파싱 실패"@),
            Some(p) => lookup_result(p.0, symbol),
        }
    }
}

/// In a fat file that has a record of `cputype`, the lookup is made in the
/// image at that record's offset and nowhere else: its value is what that
/// image's symbol table gives (the first entry named `symbol`), whatever the
/// other architectures hold.
pub proof fn law_fat_lookup_uses_cputype_arch(
    bytes: Seq<u8>,
    symbol: Seq<char>,
    cputype: u32,
    off: u32,
    syms: Seq<Option<(Seq<char>, u64)>>,
    uuids: Seq<Option<Seq<u8>>>,
)
    requires
        bytes.len() >= 8,
        be_u32_at(bytes, 0) == FAT_MAGIC,
        fat_find_cputype(bytes, fat_arch_total(bytes), 0, cputype) == Some(Some(off)),
        entry_point_fits(bytes, off as int),
        macho_parse(bytes, off as int) == Some((syms, uuids)),
    ensures
        symbol_search(syms, symbol) matches Some(Some(v)) ==> spec_symbol_address(bytes, symbol, cputype)
            == Ok::<u64, Seq<char>>(v),
        symbol_search(syms, symbol) is None ==> spec_symbol_address(bytes, symbol, cputype) == Err::<
            u64,
            Seq<char>,
        >(symbol + " 심볼을 찾지 못했습니다."@),
        symbol_search(syms, symbol) == Some(None::<u64>) ==> spec_symbol_address(bytes, symbol, cputype)
            is Err,
        spec_macho_uuid(bytes, cputype) == Ok::<Option<Seq<u8>>, Seq<char>>(first_uuid_from(uuids, 0)),
{
    reveal_strlit("Mach-O 심볼 읽기 실패");
    assert(!is_mach_magic(be_u32_at(bytes, 0)));
    assert(entry_point_fits(bytes, 0));
}

/// Copies `bytes[from..to]`.
fn copy_range(bytes: &[u8], from: usize, to: usize) -> (r: Vec<u8>)
    requires
        from <= to <= bytes@.len(),
    ensures
        r@ == bytes@.subrange(from as int, to as int),
{
    let mut out: Vec<u8> = Vec::new();
    let mut k = from;
    while k < to
        invariant
            from <= k <= to <= bytes@.len(),
            out@ == bytes@.subrange(from as int, k as int),
        decreases to - k,
    {
        out.push(bytes[k]);
        k = k + 1;
        assert(out@ =~= bytes@.subrange(from as int, k as int));
    }
    out
}

/// Whether architecture `i` of the fat file `bytes` is clear of goblin's
/// entry-address overflow.
fn arch_entry_fits(bytes: &[u8], i: usize) -> (r: bool)
    ensures
        r == entry_point_fits(arch_slice(bytes@, i as int), 0),
{
    let len = bytes.len();
    if i > (len / 20) || len < 28 || 20 * i > len - 28 {
        proof {
            assert(!fat_record_fits(bytes@, i as int));
            assert(arch_slice(bytes@, i as int) =~= Seq::<u8>::empty());
        }
        return true;
    }
    let rec = 8 + 20 * i;
    let off = read_be_u32(bytes, rec + 8) as usize;
    let size = read_be_u32(bytes, rec + 12) as usize;
    if off > len || size > len - off {
        proof {
            assert(arch_slice(bytes@, i as int) =~= Seq::<u8>::empty());
        }
        return true;
    }
    let sub = copy_range(bytes, off, off + size);
    entry_point_fits_at(sub.as_slice(), 0)
}

/// Tries the architectures of a fat file in turn for `symbol`.
fn scan_fat_for_symbol(bytes: &[u8], fat: &goblin::mach::MultiArch, symbol: &str) -> (r: Result<u64, String>)
    requires
        bytes@.len() >= 8,
        fat_bytes(*fat) == bytes@,
    ensures
        match fat_symbol_scan(bytes@, 0, symbol@) {
            Ok(v) => r matches Ok(a) && a == v,
            Err(t) => r matches Err(e) && e@ == t,
        },
        r matches Err(e) ==> e@ == arch_missing_text(symbol@),
{
    let n = fat_arch_count(fat);
    let mut i: usize = 0;
    while i < n
        invariant
            bytes@.len() >= 8,
            fat_bytes(*fat) == bytes@,
            n == fat_arch_total(bytes@),
            i <= n,
            fat_symbol_scan(bytes@, i as int, symbol@) == fat_symbol_scan(bytes@, 0, symbol@),
        decreases n - i,
    {
        if arch_entry_fits(bytes, i) {
            let got = fat_macho_at(fat, i);
            if let Ok(Some(m)) = got {
                let found = symbol_address_from_macho(&m, symbol);
                if let Ok(address) = found {
                    return Ok(address);
                }
            }
        }
        i = i + 1;
    }
    let mut msg = String::from_str("현재 CPU arch에서 ");
    msg.append(symbol);
    msg.append(" 심볼을 찾지 못했습니다.");
    Err(msg)
}

/// Looks `symbol` up in the Mach-O file `bytes`. Of a fat file the
/// architecture of `cputype` is read when present; otherwise every Mach-O
/// architecture is tried in order and the first that has the symbol wins.
/// An image on which goblin's entry-address arithmetic would overflow is
/// reported as one that does not parse.
pub fn symbol_address(bytes: &[u8], symbol: &str, cputype: u32) -> (r: Result<u64, String>)
    ensures
        match spec_symbol_address(bytes@, symbol@, cputype) {
            Ok(v) => r matches Ok(a) && a == v,
            Err(t) => r matches Err(e) && e@ == t,
        },
        bytes@.len() < 4 ==> (r matches Err(e) && e@ == "Mach-O 파싱 실패"@),
        r matches Err(e) ==> lookup_error_text(e@, symbol@),
{
    if !entry_point_fits_at(bytes, 0) {
        return Err(String::from_str("Mach-O 파싱 실패"));
    }
    let file = match parse_mach(bytes) {
        Ok(f) => f,
        Err(_) => return Err(String::from_str("Mach-O 파싱 실패")),
    };
    match file {
        MachFile::Binary(m) => symbol_address_from_macho(&m, symbol),
        MachFile::Fat(fat) => {
            match fat_offset_for_cputype(&fat, cputype) {
                Err(_) => return Err(String::from_str("Fat Mach-O 탐색 실패")),
                Ok(Some(offset)) => {
                    if !entry_point_fits_at(bytes, offset as usize) {
                        return Err(String::from_str("Mach-O arch 파싱 실패"));
                    }
                    let m = match parse_macho_at(bytes, offset as usize) {
                        Ok(m) => m,
                        Err(_) => return Err(String::from_str("Mach-O arch 파싱 실패")),
                    };
                    return symbol_address_from_macho(&m, symbol);
                },
                Ok(None) => {},
            }
            scan_fat_for_symbol(bytes, &fat, symbol)
        },
    }
}

/// The first UUID in `uuids` at or after position `i`.
pub open spec fn first_uuid_from(uuids: Seq<Option<Seq<u8>>>, i: int) -> Option<Seq<u8>>
    decreases uuids.len() - i,
{
    if i < 0 || i >= uuids.len() {
        None
    } else if uuids[i] is Some {
        uuids[i]
    } else {
        first_uuid_from(uuids, i + 1)
    }
}

/// The UUID of `m` as lower-case hexadecimal, from its first `LC_UUID`
/// command; `None` when it has none.
pub fn uuid_from_macho(m: &goblin::mach::MachO) -> (r: Option<String>)
    ensures
        match first_uuid_from(macho_uuids(*m), 0) {
            Some(b) => r matches Some(s) && s@ == hex_pairs(b),
            None => r is None,
        },
        r matches Some(s) ==> exists|b: Seq<u8>| b.len() == 16 && s@ == #[trigger] hex_pairs(b),
{
    let uuids = load_command_uuids(m);
    let ghost all = macho_uuids(*m);
    let mut i: usize = 0;
    while i < uuids.len()
        invariant
            uuids@.len() == all.len(),
            all == macho_uuids(*m),
            forall|j: int|
                0 <= j < uuids@.len() ==> match #[trigger] uuids@[j] {
                    Some(u) => all[j] == Some(u@),
                    None => all[j] is None,
                },
            forall|j: int| 0 <= j < uuids@.len() ==> (#[trigger] all[j] matches Some(u) ==> u.len() == 16),
            i <= uuids@.len(),
            first_uuid_from(all, i as int) == first_uuid_from(all, 0),
        decreases uuids@.len() - i,
    {
        if let Some(u) = &uuids[i] {
            assert(uuids@[i as int] matches Some(w) && all[i as int] == Some(w@));
            assert(all[i as int] matches Some(w) && w.len() == 16);
            let s = uuid_hex(u.as_slice());
            assert(s@ == hex_pairs(u@));
            return Some(s);
        }
        assert(all[i as int] is None);
        i = i + 1;
    }
    None
}

/// Trying the architectures from `i` on in order: the first UUID found.
pub open spec fn fat_uuid_scan(data: Seq<u8>, i: int) -> Option<Seq<u8>>
    decreases fat_arch_total(data) - i,
{
    if i < 0 || i >= fat_arch_total(data) {
        None
    } else {
        match arch_image(data, i) {
            Some(p) => match first_uuid_from(p.1, 0) {
                Some(u) => Some(u),
                None => fat_uuid_scan(data, i + 1),
            },
            None => fat_uuid_scan(data, i + 1),
        }
    }
}

/// The UUID of a fat file: of the architecture of `cputype` when a record
/// has it, else the first any architecture has.
pub open spec fn fat_uuid(data: Seq<u8>, cputype: u32) -> Result<Option<Seq<u8>>, Seq<char>> {
    match fat_find_cputype(data, fat_arch_total(data), 0, cputype) {
        None => Err("Fat Mach-O 탐색 실패"@),
        Some(Some(off)) => if !entry_point_fits(data, off as int) {
            Err("Mach-O arch 파싱 실패"@)
        } else {
            match macho_parse(data, off as int) {
                None => Err("Mach-O arch 파싱 실패"@),
                Some(p) => Ok(first_uuid_from(p.1, 0)),
            }
        },
        Some(None) => Ok(fat_uuid_scan(data, 0)),
    }
}

/// The UUID bytes of the Mach-O file `bytes`, or the text of the failure.
/// An image on which goblin's entry-address arithmetic would overflow
/// counts as one that does not parse.
pub open spec fn spec_macho_uuid(bytes: Seq<u8>, cputype: u32) -> Result<Option<Seq<u8>>, Seq<char>> {
    if !entry_point_fits(bytes, 0) || bytes.len() < 4 {
        Err("Mach-O 파싱 실패"@)
    } else if be_u32_at(bytes, 0) == FAT_MAGIC {
        if bytes.len() < 8 {
            Err("Mach-O 파싱 실패"@)
        } else {
            fat_uuid(bytes, cputype)
        }
    } else {
        match macho_parse(bytes, 0) {
            None => Err("Mach-O 파싱 실패"@),
            Some(p) => Ok(first_uuid_from(p.1, 0)),
        }
    }
}

/// The UUID as the text the cache keys on, when there is one.
pub open spec fn spec_uuid_text(bytes: Seq<u8>, cputype: u32) -> Option<Seq<char>> {
    match spec_macho_uuid(bytes, cputype) {
        Ok(Some(b)) => Some(hex_pairs(b)),
        _ => None,
    }
}

/// Tries the architectures of a fat file in turn for a UUID.
fn scan_fat_for_uuid(bytes: &[u8], fat: &goblin::mach::MultiArch) -> (r: Option<String>)
    requires
        bytes@.len() >= 8,
        fat_bytes(*fat) == bytes@,
    ensures
        match fat_uuid_scan(bytes@, 0) {
            Some(b) => r matches Some(s) && s@ == hex_pairs(b),
            None => r is None,
        },
{
    let n = fat_arch_count(fat);
    let mut i: usize = 0;
    while i < n
        invariant
            bytes@.len() >= 8,
            fat_bytes(*fat) == bytes@,
            n == fat_arch_total(bytes@),
            i <= n,
            fat_uuid_scan(bytes@, i as int) == fat_uuid_scan(bytes@, 0),
        decreases n - i,
    {
        if arch_entry_fits(bytes, i) {
            let got = fat_macho_at(fat, i);
            if let Ok(Some(m)) = got {
                if let Some(u) = uuid_from_macho(&m) {
                    return Some(u);
                }
            }
        }
        i = i + 1;
    }
    None
}

/// The UUID of the Mach-O file `bytes`: of the architecture of `cputype` in
/// a fat file, else of the first Mach-O architecture that has one. An image
/// on which goblin's entry-address arithmetic would overflow is reported as
/// one that does not parse.
pub fn macho_uuid(bytes: &[u8], cputype: u32) -> (r: Result<Option<String>, String>)
    ensures
        match spec_macho_uuid(bytes@, cputype) {
            Ok(Some(b)) => r matches Ok(Some(s)) && s@ == hex_pairs(b),
            Ok(None) => r matches Ok(None),
            Err(t) => r matches Err(e) && e@ == t,
        },
        bytes@.len() < 4 ==> (r matches Err(e) && e@ == "Mach-O 파싱 실패"@),
{
    if !entry_point_fits_at(bytes, 0) {
        return Err(String::from_str("Mach-O 파싱 실패"));
    }
    let file = match parse_mach(bytes) {
        Ok(f) => f,
        Err(_) => return Err(String::from_str("Mach-O 파싱 실패")),
    };
    match file {
        MachFile::Binary(m) => Ok(uuid_from_macho(&m)),
        MachFile::Fat(fat) => {
            match fat_offset_for_cputype(&fat, cputype) {
                Err(_) => return Err(String::from_str("Fat Mach-O 탐색 실패")),
                Ok(Some(offset)) => {
                    if !entry_point_fits_at(bytes, offset as usize) {
                        return Err(String::from_str("Mach-O arch 파싱 실패"));
                    }
                    let m = match parse_macho_at(bytes, offset as usize) {
                        Ok(m) => m,
                        Err(_) => return Err(String::from_str("Mach-O arch 파싱 실패")),
                    };
                    return Ok(uuid_from_macho(&m));
                },
                Ok(None) => {},
            }
            Ok(scan_fat_for_uuid(bytes, &fat))
        },
    }
}

/// Finds `symbol` in the executable at `path` (its `bytes`, length and
/// modification time given), answering from `cache` when an entry matches
/// the file exactly (path, size, time, UUID and symbol). A fresh lookup is
/// remembered in the cache; the second result says whether the cache
/// changed and should be saved.
pub fn symbol_address_with_cache(
    cache: &mut GworldSymbolCache,
    path: &str,
    file_len: u64,
    modified_secs: u64,
    bytes: &[u8],
    symbol: &str,
    cputype: u32,
) -> (r: (Result<u64, String>, bool))
    ensures
        !r.1 ==> final(cache).entries@ == old(cache).entries@,
        r.1 ==> r.0 is Ok && final(cache).entries@.last().address == r.0->Ok_0
            && final(cache).entries@.last().path@ == path@ && final(cache).entries@.last().symbol@ == symbol@,
        r.0 matches Err(e) ==> lookup_error_text(e@, symbol@),
        !r.1 && r.0 is Ok ==> exists|u: Option<Seq<char>>|
            #[trigger] spec_cached_symbol(old(cache).entries@, path@, file_len, modified_secs, u, symbol@)
                == Some(r.0->Ok_0),
        spec_cached_symbol(
            old(cache).entries@,
            path@,
            file_len,
            modified_secs,
            spec_uuid_text(bytes@, cputype),
            symbol@,
        ) matches Some(a) ==> (r.0 matches Ok(x) && x == a && !r.1),
        spec_cached_symbol(
            old(cache).entries@,
            path@,
            file_len,
            modified_secs,
            spec_uuid_text(bytes@, cputype),
            symbol@,
        ) is None ==> match spec_symbol_address(bytes@, symbol@, cputype) {
            Ok(v) => r.0 matches Ok(x) && x == v && r.1,
            Err(t) => r.0 matches Err(e) && e@ == t && !r.1,
        },
        r.1 ==> opt_view(final(cache).entries@.last().uuid) == spec_uuid_text(bytes@, cputype)
            && final(cache).entries@.last().len == file_len
            && final(cache).entries@.last().modified_secs == modified_secs,
{
    let uuid = match macho_uuid(bytes, cputype) {
        Ok(u) => u,
        Err(_) => None,
    };
    if let Some(address) = cache.cached_address(path, file_len, modified_secs, &uuid, symbol) {
        return (Ok(address), false);
    }
    let address = match symbol_address(bytes, symbol, cputype) {
        Ok(a) => a,
        Err(e) => return (Err(e), false),
    };
    cache.record(
        GworldSymbolCacheEntry {
            path: String::from_str(path),
            len: file_len,
            modified_secs,
            uuid,
            symbol: String::from_str(symbol),
            address,
        },
    );
    (Ok(address), true)
}

} // verus!
