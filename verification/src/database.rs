//! The capture database: which files count as databases, how they are
//! listed, how captured packets become table rows, and when the writer
//! flushes its buffer.
use vstd::prelude::*;

use crate::clock::{spec_nanos_since_epoch, Timestamp};
use crate::network::{ip_to_bytes, spec_ip_to_bytes, IpCapture, IpCaptureView};
use crate::wire::copy_range;

verus! {

// ================================================================ finding databases

/// The extension of a file name: the text after its last dot, when the
/// name has a dot that is not its first character.
pub open spec fn file_extension(name: Seq<char>) -> Option<Seq<char>> {
    if exists|i: int| 0 <= i < name.len() && name[i] == '.' {
        let last = choose|i: int|
            0 <= i < name.len() && name[i] == '.' && forall|j: int| i < j < name.len() ==> name[j] != '.';
        if last == 0 {
            None
        } else {
            Some(name.subrange(last + 1, name.len() as int))
        }
    } else {
        None
    }
}

pub open spec fn is_sqlite_extension(ext: Seq<char>) -> bool {
    ext == seq!['d', 'b'] || ext == seq!['s', 'q', 'l', 'i', 't', 'e'] || ext == seq![
        's',
        'q',
        'l',
        'i',
        't',
        'e',
        '3',
    ]
}

/// A file (given by its file name, if the path has one) whose extension is
/// `db`, `sqlite` or `sqlite3`.
pub open spec fn spec_has_sqlite_extension(file_name: Option<Seq<char>>) -> bool {
    match file_name {
        Some(name) => match file_extension(name) {
            Some(ext) => is_sqlite_extension(ext),
            None => false,
        },
        None => false,
    }
}

fn chars_match(name: &str, start: usize, expected: &[char]) -> (r: bool)
    requires
        start <= name@.len(),
    ensures
        r == (name@.subrange(start as int, name@.len() as int) == expected@),
{
    let n = name.unicode_len();
    if n - start != expected.len() {
        proof {
            if name@.subrange(start as int, name@.len() as int) == expected@ {
                assert(false);
            }
        }
        return false;
    }
    let mut i: usize = 0;
    while i < expected.len()
        invariant
            n == name@.len(),
            n - start == expected@.len(),
            start <= n,
            0 <= i <= expected@.len(),
            forall|j: int| 0 <= j < i ==> name@[start + j] == expected@[j],
        decreases expected@.len() - i,
    {
        if name.get_char(start + i) != expected[i] {
            proof {
                let tail = name@.subrange(start as int, name@.len() as int);
                assert(tail[i as int] != expected@[i as int]);
            }
            return false;
        }
        i = i + 1;
    }
    assert(name@.subrange(start as int, name@.len() as int) =~= expected@);
    true
}

/// Whether a file name ends in `.db`, `.sqlite` or `.sqlite3`, as the
/// extension of a file name is read: a leading dot does not start an extension.
fn name_has_sqlite_extension(name: &str) -> (r: bool)
    ensures
        r == spec_has_sqlite_extension(Some(name@)),
{
    let n = name.unicode_len();
    let mut i: usize = n;
    while i > 0 && name.get_char(i - 1) != '.'
        invariant
            n == name@.len(),
            0 <= i <= n,
            forall|j: int| i <= j < n ==> name@[j] != '.',
        decreases i,
    {
        i = i - 1;
    }
    if i == 0 {
        assert(!exists|k: int| 0 <= k < name@.len() && name@[k] == '.');
        return false;
    }
    let dot: usize = i - 1;
    proof {
        let last = choose|k: int|
            0 <= k < name@.len() && name@[k] == '.' && forall|j: int|
                k < j < name@.len() ==> name@[j] != '.';
        assert(name@[dot as int] == '.');
        if last < dot {
            assert(false);
        }
        if last > dot {
            assert(false);
        }
    }
    if dot == 0 {
        return false;
    }
    let db = ['d', 'b'];
    let sqlite = ['s', 'q', 'l', 'i', 't', 'e'];
    let sqlite3 = ['s', 'q', 'l', 'i', 't', 'e', '3'];
    assert(db@ =~= seq!['d', 'b']);
    assert(sqlite@ =~= seq!['s', 'q', 'l', 'i', 't', 'e']);
    assert(sqlite3@ =~= seq!['s', 'q', 'l', 'i', 't', 'e', '3']);
    chars_match(name, i, db.as_slice()) || chars_match(name, i, sqlite.as_slice())
        || chars_match(name, i, sqlite3.as_slice())
}

/// The position of the last `c` in `p`, or -1.
pub open spec fn last_index_of(p: Seq<char>, c: char) -> int
    decreases p.len(),
{
    if p.len() == 0 {
        -1
    } else if p.last() == c {
        p.len() - 1
    } else {
        last_index_of(p.drop_last(), c)
    }
}

pub proof fn lemma_last_index_bounds(p: Seq<char>, c: char)
    ensures
        -1 <= last_index_of(p, c) < p.len(),
        last_index_of(p, c) >= 0 ==> p[last_index_of(p, c)] == c,
        forall|j: int| last_index_of(p, c) < j < p.len() ==> p[j] != c,
    decreases p.len(),
{
    if p.len() > 0 && p.last() != c {
        let q = p.drop_last();
        lemma_last_index_bounds(q, c);
        assert forall|j: int| last_index_of(p, c) < j < p.len() implies p[j] != c by {
            if j < p.len() - 1 {
                assert(p[j] == q[j]);
            }
        }
        if last_index_of(p, c) >= 0 {
            assert(p[last_index_of(p, c)] == q[last_index_of(q, c)]);
        }
    }
}

proof fn lemma_last_index_is(p: Seq<char>, c: char, i: int)
    requires
        -1 <= i < p.len(),
        i >= 0 ==> p[i] == c,
        forall|j: int| i < j < p.len() ==> p[j] != c,
    ensures
        last_index_of(p, c) == i,
    decreases p.len(),
{
    if p.len() > 0 && p.last() != c {
        lemma_last_index_is(p.drop_last(), c, i);
    }
}

/// The final component of a path written with `/` separators: repeated
/// and trailing separators and `.` components after the first are ignored;
/// there is none when the path is empty, the root, `.` or ends in `..`.
pub open spec fn path_file_name(p: Seq<char>) -> Option<Seq<char>>
    decreases p.len(),
{
    if p.len() == 0 {
        None
    } else if p.last() == '/' {
        path_file_name(p.drop_last())
    } else {
        let k = last_index_of(p, '/');
        proof {
            lemma_last_index_bounds(p, '/');
        }
        let comp = p.subrange(k + 1, p.len() as int);
        if comp == seq!['.'] {
            if k < 0 {
                None
            } else {
                path_file_name(p.subrange(0, k))
            }
        } else if comp == seq!['.', '.'] {
            None
        } else {
            Some(comp)
        }
    }
}

/// A path whose file name has a SQLite extension.
pub open spec fn spec_path_has_sqlite_extension(path: Seq<char>) -> bool {
    spec_has_sqlite_extension(path_file_name(path))
}

/// `name` appended to `dir` as a path: a separator goes between them unless
/// `dir` is empty or already ends in one; an absolute `name` replaces `dir`.
pub open spec fn path_join(dir: Seq<char>, name: Seq<char>) -> Seq<char> {
    if name.len() > 0 && name[0] == '/' {
        name
    } else if dir.len() > 0 && dir.last() != '/' {
        dir + seq!['/'] + name
    } else {
        dir + name
    }
}

/// A single path component that names an entry: not empty, without a
/// separator, and neither `.` nor `..`.
pub open spec fn is_normal_component(name: Seq<char>) -> bool {
    &&& name.len() > 0
    &&& forall|i: int| 0 <= i < name.len() ==> name[i] != '/'
    &&& name != seq!['.']
    &&& name != seq!['.', '.']
}

proof fn lemma_file_name_of_trailing_component(prefix: Seq<char>, name: Seq<char>)
    requires
        is_normal_component(name),
        prefix.len() == 0 || prefix.last() == '/',
    ensures
        path_file_name(prefix + name) == Some(name),
{
    let p = prefix + name;
    let k = prefix.len() - 1;
    assert forall|j: int| k < j < p.len() implies p[j] != '/' by {
        assert(p[j] == name[j - prefix.len()]);
    }
    lemma_last_index_is(p, '/', k);
    assert(p.last() == name.last());
    assert(p.subrange(k + 1, p.len() as int) =~= name);
}

/// Whether a file has a SQLite extension depends on the text of its path
/// alone, and only on its final component: placing a file name under any
/// directory does not change the answer.
pub proof fn lemma_extension_ignores_directory(dir: Seq<char>, name: Seq<char>)
    requires
        is_normal_component(name),
    ensures
        spec_path_has_sqlite_extension(path_join(dir, name)) == spec_path_has_sqlite_extension(
            name,
        ),
{
    lemma_file_name_of_trailing_component(Seq::empty(), name);
    assert(Seq::<char>::empty() + name =~= name);
    if dir.len() > 0 && dir.last() != '/' {
        let prefix = dir + seq!['/'];
        assert(prefix.last() == '/');
        lemma_file_name_of_trailing_component(prefix, name);
        assert(dir + seq!['/'] + name == prefix + name);
    } else {
        lemma_file_name_of_trailing_component(dir, name);
    }
}

/// A path has a SQLite extension exactly when the text after the last dot
/// of its file name (a dot that is not the name's first character) is, as a
/// whole, `db`, `sqlite` or `sqlite3`: longer extensions that start with
/// them, such as `db-wal` or `sqlite-shm`, do not count, whatever directory
/// the file is in.
pub proof fn lemma_sqlite_extension_is_whole(dir: Seq<char>, stem: Seq<char>, ext: Seq<char>)
    requires
        stem.len() > 0,
        ext.len() > 0,
        forall|i: int| 0 <= i < stem.len() ==> stem[i] != '/',
        forall|i: int| 0 <= i < ext.len() ==> ext[i] != '/' && ext[i] != '.',
    ensures
        spec_path_has_sqlite_extension(path_join(dir, stem + seq!['.'] + ext)) <==> (ext == seq![
            'd',
            'b',
        ] || ext == seq!['s', 'q', 'l', 'i', 't', 'e'] || ext == seq![
            's',
            'q',
            'l',
            'i',
            't',
            'e',
            '3',
        ]),
{
    let name = stem + seq!['.'] + ext;
    let dot = stem.len() as int;
    assert(name[dot] == '.');
    assert forall|i: int| 0 <= i < name.len() implies name[i] != '/' by {
        if i < dot {
            assert(name[i] == stem[i]);
        } else if i > dot {
            assert(name[i] == ext[i - dot - 1]);
        }
    }
    assert(name != seq!['.']);
    assert(name != seq!['.', '.']) by {
        if name == seq!['.', '.'] {
            assert(name.len() == 2);
        }
    }
    lemma_extension_ignores_directory(dir, name);
    lemma_file_name_of_trailing_component(Seq::empty(), name);
    assert(Seq::<char>::empty() + name =~= name);
    assert forall|j: int| dot < j < name.len() implies name[j] != '.' by {
        assert(name[j] == ext[j - dot - 1]);
    }
    let last = choose|i: int|
        0 <= i < name.len() && name[i] == '.' && forall|j: int| i < j < name.len() ==> name[j] != '.';
    assert(last == dot);
    assert(name.subrange(dot + 1, name.len() as int) =~= ext);
}

/// Whether the file a path names ends in `.db`, `.sqlite` or `.sqlite3`.
pub fn has_sqlite_extension(path: &str) -> (r: bool)
    ensures
        r == spec_path_has_sqlite_extension(path@),
{
    let n = path.unicode_len();
    let mut end: usize = n;
    assert(path@.subrange(0, n as int) =~= path@);
    loop
        invariant
            n == path@.len(),
            end <= n,
            path_file_name(path@) == path_file_name(path@.subrange(0, end as int)),
        decreases end,
    {
        let ghost q = path@.subrange(0, end as int);
        if end == 0 {
            return false;
        }
        if path.get_char(end - 1) == '/' {
            assert(q.drop_last() =~= path@.subrange(0, end - 1));
            end = end - 1;
            continue;
        }
        let mut start: usize = end;
        while start > 0 && path.get_char(start - 1) != '/'
            invariant
                n == path@.len(),
                start <= end <= n,
                forall|j: int| start <= j < end ==> path@[j] != '/',
            decreases start,
        {
            start = start - 1;
        }
        proof {
            lemma_last_index_is(q, '/', start - 1);
            assert(q.subrange(start as int, end as int) =~= path@.subrange(start as int, end as int));
        }
        if end - start == 1 && path.get_char(start) == '.' {
            proof {
                assert(q.subrange(start as int, end as int) =~= seq!['.']);
            }
            if start == 0 {
                return false;
            }
            assert(q.subrange(0, start - 1) =~= path@.subrange(0, start - 1));
            end = start - 1;
            continue;
        }
        if end - start == 2 && path.get_char(start) == '.' && path.get_char(start + 1) == '.' {
            proof {
                assert(q.subrange(start as int, end as int) =~= seq!['.', '.']);
            }
            return false;
        }
        proof {
            let comp = q.subrange(start as int, end as int);
            if comp == seq!['.'] {
                assert(comp[0] == path@[start as int]);
            }
            if comp == seq!['.', '.'] {
                assert(comp[0] == path@[start as int] && comp[1] == path@[start + 1]);
            }
        }
        let name = path.substring_char(start, end);
        return name_has_sqlite_extension(name);
    }
}

/// The 16 bytes every SQLite database file starts with: "SQLite format 3"
/// and a NUL.
pub open spec fn sqlite_magic() -> Seq<u8> {
    seq![
        0x53u8,
        0x51,
        0x4c,
        0x69,
        0x74,
        0x65,
        0x20,
        0x66,
        0x6f,
        0x72,
        0x6d,
        0x61,
        0x74,
        0x20,
        0x33,
        0x00,
    ]
}

/// Whether the first 16 bytes of a file (`None` when it could not be opened
/// or is shorter) are the SQLite header.
pub fn is_sqlite_magic(header: Option<[u8; 16]>) -> (r: bool)
    ensures
        r == match header {
            Some(h) => h@ == sqlite_magic(),
            None => false,
        },
{
    match header {
        None => false,
        Some(h) => {
            let magic: [u8; 16] = [
                0x53, 0x51, 0x4c, 0x69, 0x74, 0x65, 0x20, 0x66, 0x6f, 0x72, 0x6d, 0x61, 0x74, 0x20,
                0x33, 0x00,
            ];
            assert(magic@ =~= sqlite_magic());
            let mut i: usize = 0;
            while i < 16
                invariant
                    0 <= i <= 16,
                    header == Some(h),
                    magic@ == sqlite_magic(),
                    forall|j: int| 0 <= j < i ==> h@[j] == magic@[j],
                decreases 16 - i,
            {
                if h[i] != magic[i] {
                    assert(h@[i as int] != sqlite_magic()[i as int]);
                    return false;
                }
                i = i + 1;
            }
            assert(h@ =~= sqlite_magic());
            true
        },
    }
}

/// Whether a directory entry is listed as a database: a regular file with a
/// SQLite extension or with the SQLite header.
pub fn is_database_entry(is_file: bool, path: &str, header: Option<[u8; 16]>) -> (r: bool)
    ensures
        r == (is_file && (spec_path_has_sqlite_extension(path@) || match header {
            Some(h) => h@ == sqlite_magic(),
            None => false,
        })),
{
    is_file && (has_sqlite_extension(path) || is_sqlite_magic(header))
}

// ================================================================ listing

/// One line of the database listing: its number and its path as text.
pub struct ListedDatabase {
    pub number: u8,
    pub path: String,
}

/// Numbers the databases found from 1 on; a path that is not valid text is
/// shown as `unprintable`.
pub fn database_listing(paths: &Vec<Option<String>>, unprintable: &str) -> (r: Vec<ListedDatabase>)
    requires
        paths@.len() <= 255,
    ensures
        r@.len() == paths@.len(),
        forall|k: int|
            #![trigger r@[k]]
            0 <= k < r@.len() ==> {
                &&& r@[k].number == k + 1
                &&& r@[k].path@ == match paths@[k] {
                    Some(p) => p@,
                    None => unprintable@,
                }
            },
{
    let mut r: Vec<ListedDatabase> = Vec::new();
    let mut count: u8 = 0;
    while (count as usize) < paths.len()
        invariant
            count as int == r@.len(),
            r@.len() <= paths@.len() <= 255,
            forall|k: int|
                #![trigger r@[k]]
                0 <= k < r@.len() ==> {
                    &&& r@[k].number == k + 1
                    &&& r@[k].path@ == match paths@[k] {
                        Some(p) => p@,
                        None => unprintable@,
                    }
                },
        decreases paths@.len() - count,
    {
        let path = match &paths[count as usize] {
            Some(p) => p.clone(),
            None => String::from_str(unprintable),
        };
        count = count + 1;
        r.push(ListedDatabase { number: count, path });
    }
    r
}

// ================================================================ schema

/// One column of a table, as SQLite describes it.
pub struct ColumnInfo {
    pub cid: i32,
    pub name: String,
    pub col_type: String,
    pub not_null: bool,
    pub primary_key: bool,
}

/// A table: its name, its number of rows and its columns.
pub struct TableInfo {
    pub name: String,
    pub row_count: i64,
    pub columns: Vec<ColumnInfo>,
}

/// A database file: where it is, how large, when last changed, its tables.
pub struct DbInfo {
    pub path: String,
    pub file_size: u64,
    pub last_modified: Timestamp,
    pub tables: Vec<TableInfo>,
}

/// Why the schema of a database cannot be described.
#[derive(Clone, Copy, Debug, PartialEq, Eq, Structural)]
pub enum DatabaseInfoError {
    /// The database holds no table of its own.
    NothingInDatabase,
}

/// The text picked from the schema rows: from the `k`-th row (counting from
/// zero), column `k + 1`.
pub open spec fn picked_definitions(rows: Seq<Vec<String>>) -> Seq<Seq<char>> {
    Seq::new(rows.len(), |k: int| rows[k]@[k + 1]@)
}

/// Picks the schema text from the rows of `sqlite_master` that describe
/// user tables, each row given as the text of its columns (name, then sql).
pub fn table_definitions(rows: &Vec<Vec<String>>) -> (r: Result<Vec<String>, DatabaseInfoError>)
    requires
        forall|k: int| 0 <= k < rows@.len() ==> (#[trigger] rows@[k])@.len() > k + 1,
    ensures
        rows@.len() == 0 <==> r is Err,
        r matches Ok(v) ==> v@.map_values(|s: String| s@) == picked_definitions(rows@),
{
    if rows.len() == 0 {
        return Err(DatabaseInfoError::NothingInDatabase);
    }
    let mut v: Vec<String> = Vec::new();
    let mut count: usize = 0;
    while count < rows.len()
        invariant
            0 <= count <= rows@.len(),
            forall|k: int| 0 <= k < rows@.len() ==> (#[trigger] rows@[k])@.len() > k + 1,
            v@.len() == count,
            forall|k: int| 0 <= k < count ==> (#[trigger] v@[k])@ == rows@[k]@[k + 1]@,
        decreases rows@.len() - count,
    {
        let row = &rows[count];
        assert(row@.len() > count + 1);
        v.push(row[count + 1].clone());
        count = count + 1;
    }
    assert(v@.map_values(|s: String| s@) =~= picked_definitions(rows@));
    Ok(v)
}

// ================================================================ rows

/// The text name of an IP next-header protocol number (`Tcp` for 6,
/// `unknown` for unassigned numbers, ...), as pnet spells it.
pub uninterp spec fn next_header_protocol_name(number: u8) -> Seq<char>;

/// Calls `Display` of `pnet::packet::ip::IpNextHeaderProtocol`.
///
/// The claim is that the text depends on the protocol number alone; the
/// name table itself (about 150 entries) is not written out here.
#[verifier::external_body]
fn protocol_name(number: u8) -> (name: String)
    ensures
        name@ == next_header_protocol_name(number),
{
    pnet::packet::ip::IpNextHeaderProtocol(number).to_string()
}

/// The values stored for one captured packet.
pub struct CaptureRow {
    /// Nanoseconds since the epoch; zero when they do not fit in an `i64`.
    pub timestamp: i64,
    pub src_ip: Vec<u8>,
    pub dst_ip: Vec<u8>,
    pub protocol: String,
    pub length: u16,
}

pub open spec fn stored_nanos(t: Timestamp) -> i64 {
    match spec_nanos_since_epoch(t) {
        Some(n) => n,
        None => 0,
    }
}

/// Whether `row` stores capture `c` with `protocol` as its protocol text.
pub open spec fn is_row_of(row: CaptureRow, c: IpCaptureView, protocol: Seq<char>) -> bool {
    &&& row.timestamp == stored_nanos(c.timestamp)
    &&& row.src_ip@ == spec_ip_to_bytes(c.source)
    &&& row.dst_ip@ == spec_ip_to_bytes(c.dest)
    &&& row.protocol@ == protocol
    &&& row.length == c.length
}

/// The row for a capture, given the text of its protocol.
pub fn capture_row_named(c: &IpCapture, protocol: String) -> (row: CaptureRow)
    ensures
        is_row_of(row, c@, protocol@),
{
    let timestamp = match c.timestamp.nanos_since_epoch() {
        Some(n) => n,
        None => 0,
    };
    let src = ip_to_bytes(c.source);
    let dst = ip_to_bytes(c.dest);
    let src_ip = copy_range(src.as_slice(), 0, 16);
    let dst_ip = copy_range(dst.as_slice(), 0, 16);
    assert(src_ip@ =~= src@);
    assert(dst_ip@ =~= dst@);
    CaptureRow { timestamp, src_ip, dst_ip, protocol, length: c.length }
}

/// The row for a capture, its protocol written by name.
pub fn capture_row(c: &IpCapture) -> (row: CaptureRow)
    ensures
        is_row_of(row, c@, next_header_protocol_name(c.transport_protocol)),
{
    capture_row_named(c, protocol_name(c.transport_protocol))
}

/// The rows for the buffered captures, in order.
pub fn capture_rows(buffer: &Vec<IpCapture>) -> (rows: Vec<CaptureRow>)
    ensures
        rows@.len() == buffer@.len(),
        forall|k: int|
            0 <= k < rows@.len() ==> is_row_of(
                #[trigger] rows@[k],
                buffer@[k]@,
                next_header_protocol_name(buffer@[k].transport_protocol),
            ),
{
    let mut rows: Vec<CaptureRow> = Vec::new();
    let mut i: usize = 0;
    while i < buffer.len()
        invariant
            0 <= i <= buffer@.len(),
            rows@.len() == i,
            forall|k: int|
                0 <= k < i ==> is_row_of(
                    #[trigger] rows@[k],
                    buffer@[k]@,
                    next_header_protocol_name(buffer@[k].transport_protocol),
                ),
        decreases buffer@.len() - i,
    {
        rows.push(capture_row(&buffer[i]));
        i = i + 1;
    }
    rows
}

// ================================================================ writer

/// The number of buffered captures at which a received packet triggers a flush.
pub const FLUSH_THRESHOLD: usize = 256;

/// What the database writer is woken by.
pub enum WriterEvent {
    /// A capture arrived on the channel.
    Packet(IpCapture),
    /// The channel is closed and gave nothing.
    ChannelClosed,
    /// The flush timer fired.
    Tick,
}

pub enum WriterEventView {
    Packet(IpCaptureView),
    ChannelClosed,
    Tick,
}

impl View for WriterEvent {
    type V = WriterEventView;

    open spec fn view(&self) -> WriterEventView {
        match self {
            WriterEvent::Packet(c) => WriterEventView::Packet(c@),
            WriterEvent::ChannelClosed => WriterEventView::ChannelClosed,
            WriterEvent::Tick => WriterEventView::Tick,
        }
    }
}

/// What the writer does after an event.
#[derive(Clone, Copy, Debug, PartialEq, Eq, Structural)]
pub enum WriterAction {
    /// Write the whole buffer to the database.
    Flush,
    /// Wait for the next event.
    Wait,
}

/// The buffer after an event, and what the writer does next. A packet is
/// appended and causes a flush once the buffer holds the threshold; the
/// timer always causes a flush; a flush leaves the buffer as it is.
pub open spec fn spec_writer_step(buf: Seq<IpCaptureView>, ev: WriterEventView) -> (
    Seq<IpCaptureView>,
    WriterAction,
) {
    match ev {
        WriterEventView::Packet(c) => {
            let b = buf.push(c);
            (b, if b.len() >= FLUSH_THRESHOLD { WriterAction::Flush } else { WriterAction::Wait })
        },
        WriterEventView::ChannelClosed => (buf, WriterAction::Wait),
        WriterEventView::Tick => (buf, WriterAction::Flush),
    }
}

/// The buffer after a series of events.
pub open spec fn spec_writer_run(buf: Seq<IpCaptureView>, events: Seq<WriterEventView>) -> Seq<
    IpCaptureView,
>
    decreases events.len(),
{
    if events.len() == 0 {
        buf
    } else {
        spec_writer_step(spec_writer_run(buf, events.drop_last()), events.last()).0
    }
}

/// The captures that a series of events delivers, in order.
pub open spec fn delivered(events: Seq<WriterEventView>) -> Seq<IpCaptureView>
    decreases events.len(),
{
    if events.len() == 0 {
        Seq::empty()
    } else {
        match events.last() {
            WriterEventView::Packet(c) => delivered(events.drop_last()).push(c),
            _ => delivered(events.drop_last()),
        }
    }
}

/// The captures received by the database writer and not yet dropped.
pub struct CaptureBuffer {
    captures: Vec<IpCapture>,
}

impl View for CaptureBuffer {
    type V = Seq<IpCaptureView>;

    closed spec fn view(&self) -> Seq<IpCaptureView> {
        self.captures@.map_values(|c: IpCapture| c@)
    }
}

impl CaptureBuffer {
    pub fn new() -> (r: Self)
        ensures
            r@ == Seq::<IpCaptureView>::empty(),
    {
        let r = CaptureBuffer { captures: Vec::new() };
        assert(r@ =~= Seq::<IpCaptureView>::empty());
        r
    }

    /// Takes in one event and says whether to flush.
    pub fn step(&mut self, ev: WriterEvent) -> (a: WriterAction)
        ensures
            (final(self)@, a) == spec_writer_step(old(self)@, ev@),
    {
        match ev {
            WriterEvent::Packet(c) => {
                let ghost cv = c@;
                self.captures.push(c);
                assert(self@ =~= old(self)@.push(cv));
                if self.captures.len() >= FLUSH_THRESHOLD {
                    WriterAction::Flush
                } else {
                    WriterAction::Wait
                }
            },
            WriterEvent::ChannelClosed => WriterAction::Wait,
            WriterEvent::Tick => WriterAction::Flush,
        }
    }

    /// The buffered captures, oldest first.
    pub fn captures(&self) -> (r: &Vec<IpCapture>)
        ensures
            r@.map_values(|c: IpCapture| c@) == self@,
    {
        &self.captures
    }
}

/// The writer never drops or reorders a capture: after any series of
/// events the buffer is what it held before, followed by the delivered
/// captures in the order they arrived.
pub proof fn lemma_writer_keeps_every_capture(buf: Seq<IpCaptureView>, events: Seq<WriterEventView>)
    ensures
        spec_writer_run(buf, events) == buf + delivered(events),
    decreases events.len(),
{
    if events.len() == 0 {
        assert(buf + Seq::<IpCaptureView>::empty() =~= buf);
    } else {
        lemma_writer_keeps_every_capture(buf, events.drop_last());
        match events.last() {
            WriterEventView::Packet(c) => {
                assert((buf + delivered(events.drop_last())).push(c) =~= buf + delivered(
                    events.drop_last(),
                ).push(c));
            },
            _ => {},
        }
    }
}

/// A packet causes a flush exactly when the buffer, with it, holds at least
/// the threshold; once there, every further packet causes one.
pub proof fn lemma_packet_flushes_at_threshold(buf: Seq<IpCaptureView>, c: IpCaptureView)
    ensures
        (spec_writer_step(buf, WriterEventView::Packet(c)).1 == WriterAction::Flush) <==> buf.len()
            + 1 >= FLUSH_THRESHOLD,
        buf.len() >= FLUSH_THRESHOLD ==> spec_writer_step(
            spec_writer_step(buf, WriterEventView::Packet(c)).0,
            WriterEventView::Packet(c),
        ).1 == WriterAction::Flush,
{
}

proof fn lemma_delivered_contains(events: Seq<WriterEventView>, k: int, c: IpCaptureView)
    requires
        0 <= k < events.len(),
        events[k] == WriterEventView::Packet(c),
    ensures
        delivered(events).contains(c),
    decreases events.len(),
{
    let rest = events.drop_last();
    if k == events.len() - 1 {
        assert(delivered(events) == delivered(rest).push(c));
        assert(delivered(events)[delivered(rest).len() as int] == c);
    } else {
        lemma_delivered_contains(rest, k, c);
        let i = choose|i: int| 0 <= i < delivered(rest).len() && delivered(rest)[i] == c;
        match events.last() {
            WriterEventView::Packet(d) => {
                assert(delivered(events)[i] == c);
            },
            _ => {},
        }
    }
}

/// A capture is written no later than the next flush after it arrives: at
/// its own arrival or any later event that is a timer tick, or a packet
/// after which the buffer holds at least the threshold, the writer flushes,
/// and the buffer it flushes holds the capture.
pub proof fn lemma_arrived_capture_in_next_flush(
    buf: Seq<IpCaptureView>,
    events: Seq<WriterEventView>,
    k: int,
    j: int,
    c: IpCaptureView,
)
    requires
        0 <= k <= j < events.len(),
        events[k] == WriterEventView::Packet(c),
    ensures
        ({
            let (after, action) = spec_writer_step(spec_writer_run(buf, events.take(j)), events[j]);
            &&& after.contains(c)
            &&& (events[j] is Tick ==> action == WriterAction::Flush)
            &&& (events[j] is Packet && after.len() >= FLUSH_THRESHOLD ==> action
                == WriterAction::Flush)
        }),
{
    let upto = events.take(j + 1);
    assert(upto.drop_last() =~= events.take(j));
    assert(upto.last() == events[j]);
    assert(upto[k] == events[k]);
    lemma_writer_keeps_every_capture(buf, upto);
    lemma_delivered_contains(upto, k, c);
    let after = spec_writer_run(buf, upto);
    let i = choose|i: int| 0 <= i < delivered(upto).len() && delivered(upto)[i] == c;
    assert(after[buf.len() + i] == c);
}

} // verus!
