//! Names and addresses the node uses to install, start and reach xray.
use vstd::prelude::*;
use crate::text::{chars_of, concat, str_eq, string_from_chars, views};

verus! {

/// Decimal digits of `n`, most significant first.
pub open spec fn decimal(n: nat) -> Seq<char>
    decreases n,
{
    if n < 10 {
        seq![(('0' as int) + n) as char]
    } else {
        decimal(n / 10).push((('0' as int) + n % 10) as char)
    }
}

fn digit_char(d: u32) -> (c: char)
    requires
        d < 10,
    ensures
        c == (('0' as int) + d) as char,
{
    match d {
        0 => '0', 1 => '1', 2 => '2', 3 => '3', 4 => '4', 5 => '5', 6 => '6', 7 => '7', 8 => '8', _ => '9',
    }
}

fn decimal_chars(n: u32) -> (r: Vec<char>)
    ensures
        r@ == decimal(n as nat),
    decreases n,
{
    if n < 10 {
        let mut v = Vec::new();
        v.push(digit_char(n));
        assert(v@ =~= decimal(n as nat));
        v
    } else {
        let mut v = decimal_chars(n / 10);
        v.push(digit_char(n % 10));
        v
    }
}

/// `port.to_string()`.
pub fn port_text(port: u16) -> (r: String)
    ensures
        r@ == decimal(port as nat),
{
    let cs = decimal_chars(port as u32);
    string_from_chars(cs.as_slice())
}

/// The address of xray's API on the loopback interface.
pub fn grpc_address(port: u16) -> (r: String)
    ensures
        r@ == "127.0.0.1:"@ + decimal(port as nat),
{
    concat("127.0.0.1:", port_text(port).as_str())
}

/// The URL from which xray fetches its configuration over the internal socket.
pub fn xray_config_url(socket_path: &str, token: &str) -> (r: String)
    ensures
        r@ == "http+unix://"@ + socket_path@ + ":/internal/get-config?token="@ + token@,
{
    concat(concat(concat("http+unix://", socket_path).as_str(), ":/internal/get-config?token=").as_str(), token)
}

/// The arguments xray is started with: its configuration fetched from the
/// node's internal URL, in JSON.
pub fn xray_args(socket_path: &str, token: &str) -> (r: Vec<String>)
    ensures
        views(r@) == seq!["-config"@, "http+unix://"@ + socket_path@ + ":/internal/get-config?token="@ + token@, "-format"@, "json"@],
{
    let mut args: Vec<String> = Vec::new();
    args.push(String::from_str("-config"));
    args.push(xray_config_url(socket_path, token));
    args.push(String::from_str("-format"));
    args.push(String::from_str("json"));
    assert(views(args@) =~= seq!["-config"@, "http+unix://"@ + socket_path@ + ":/internal/get-config?token="@ + token@, "-format"@, "json"@]);
    args
}

/// Where the multiplexer sends a connection: a panel's to the API server,
/// every other one to xray's proxy port, both on the loopback interface.
pub fn backend_address(is_panel: bool, xray_port: u16, api_port: u16) -> (r: String)
    ensures
        r@ == "127.0.0.1:"@ + decimal((if is_panel { api_port } else { xray_port }) as nat),
{
    concat("127.0.0.1:", port_text(if is_panel { api_port } else { xray_port }).as_str())
}

/// The release archive of xray for the machine: ARM64 builds for aarch64,
/// the x86-64 build otherwise.
pub fn xray_archive_name(is_x86_64: bool, is_aarch64: bool) -> (r: &'static str)
    ensures
        r@ == (if !is_x86_64 && is_aarch64 { "Xray-linux-arm64-v8a"@ } else { "Xray-linux-64"@ }),
{
    if is_x86_64 {
        "Xray-linux-64"
    } else if is_aarch64 {
        "Xray-linux-arm64-v8a"
    } else {
        "Xray-linux-64"
    }
}

/// Where the archive `archive` of xray release `version` is downloaded from.
pub fn xray_download_url(version: &str, archive: &str) -> (r: String)
    ensures
        r@ == "https://github.com/XTLS/Xray-core/releases/download/"@ + version@ + "/"@ + archive@ + ".zip"@,
{
    concat(
        concat(concat(concat("https://github.com/XTLS/Xray-core/releases/download/", version).as_str(), "/").as_str(), archive).as_str(),
        ".zip",
    )
}

/// Whether an archive entry is the xray binary: named `xray`, or ending in `/xray`.
pub fn is_xray_entry(name: &str) -> (r: bool)
    ensures
        r == (name@ == "xray"@ || (name@.len() >= 5 && name@.skip(name@.len() - 5) == "/xray"@)),
{
    if str_eq(name, "xray") {
        return true;
    }
    let cs = chars_of(name);
    let n = cs.len();
    proof { reveal_strlit("/xray"); }
    if n < 5 {
        return false;
    }
    let tail = string_from_chars(&cs.as_slice()[n - 5..n]);
    assert(tail@ =~= name@.skip(name@.len() - 5));
    str_eq(tail.as_str(), "/xray")
}

// ----- the release archive ---------------------------------------------------------

/// An entry of a zip archive: its name and contents (or why they could not
/// be read), or why the entry could not be opened.
pub enum ArchiveEntry {
    Entry(String, Result<Vec<u8>, String>),
    Unopened(String),
}

/// The view of an archive entry.
pub enum EntryView {
    Entry(Seq<char>, Result<Seq<u8>, Seq<char>>),
    Unopened(Seq<char>),
}

pub open spec fn entry_view(e: ArchiveEntry) -> EntryView {
    match e {
        ArchiveEntry::Entry(name, Ok(b)) => EntryView::Entry(name@, Ok(b@)),
        ArchiveEntry::Entry(name, Err(m)) => EntryView::Entry(name@, Err(m@)),
        ArchiveEntry::Unopened(m) => EntryView::Unopened(m@),
    }
}

pub open spec fn entry_views(es: Seq<ArchiveEntry>) -> Seq<EntryView> {
    es.map_values(|e: ArchiveEntry| entry_view(e))
}

/// What `zip::ZipArchive::new` reads from `archive`, entry by entry in the
/// archive's order: the name with the contents that `by_index` and
/// `read_to_end` give (or the read error's text), or the `Debug` text of the
/// error that `by_index` gives; or the text of the error that `new` gives.
pub uninterp spec fn zip_listing(archive: Seq<u8>) -> Result<Seq<EntryView>, Seq<char>>;

/// The entries of a zip archive with their contents.
///
/// Trusted: the result is named, not described; it depends on the bytes
/// alone.
#[verifier::external_body]
fn read_archive(archive: &[u8]) -> (r: Result<Vec<ArchiveEntry>, String>)
    ensures
        match zip_listing(archive@) {
            Ok(es) => r matches Ok(v) && entry_views(v@) == es,
            Err(e) => r matches Err(m) && m@ == e,
        },
{
    let mut zip = zip::ZipArchive::new(std::io::Cursor::new(archive)).map_err(|e| e.to_string())?;
    let mut entries = Vec::new();
    for i in 0..zip.len() {
        entries.push(match zip.by_index(i) {
            Ok(mut file) => {
                let mut contents = Vec::new();
                let read = std::io::Read::read_to_end(&mut file, &mut contents);
                ArchiveEntry::Entry(file.name().to_string(), read.map(|_| contents).map_err(|e| e.to_string()))
            },
            Err(e) => ArchiveEntry::Unopened(format!("{e:?}")),
        });
    }
    Ok(entries)
}

/// The name of the xray binary in the archive: `xray`, or ending in `/xray`.
pub open spec fn is_xray_name(n: Seq<char>) -> bool {
    n == "xray"@ || (n.len() >= 5 && n.skip(n.len() - 5) == "/xray"@)
}

/// The contents of the last xray binary among `entries`, reading them in
/// order: an entry that cannot be opened, or the binary's contents that
/// cannot be read, stops the reading with its error.
pub open spec fn binary_in(entries: Seq<EntryView>) -> Result<Option<Seq<u8>>, Seq<char>>
    decreases entries.len(),
{
    if entries.len() == 0 {
        Ok(None)
    } else {
        match binary_in(entries.drop_last()) {
            Err(e) => Err(e),
            Ok(prev) => match entries.last() {
                EntryView::Unopened(e) => Err("called `Result::unwrap()` on an `Err` value: "@ + e),
                EntryView::Entry(name, contents) => if is_xray_name(name) {
                    match contents {
                        Ok(b) => Ok(Some(b)),
                        Err(e) => Err("Write failed: "@ + e),
                    }
                } else {
                    Ok(prev)
                },
            },
        }
    }
}

/// The xray binary in the release archive `archive`.
pub open spec fn xray_binary_of(archive: Seq<u8>) -> Result<Option<Seq<u8>>, Seq<char>> {
    match zip_listing(archive) {
        Err(e) => Err("Zip parse failed: "@ + e),
        Ok(es) => binary_in(es),
    }
}

proof fn lemma_binary_err_prefix(es: Seq<EntryView>, n: int, e: Seq<char>)
    requires
        0 <= n <= es.len(),
        binary_in(es.take(n)) matches Err(x) && x == e,
    ensures
        binary_in(es) matches Err(x) && x == e,
    decreases es.len() - n,
{
    if n < es.len() {
        assert(es.take(n + 1).drop_last() =~= es.take(n));
        lemma_binary_err_prefix(es, n + 1, e);
    } else {
        assert(es.take(n) =~= es);
    }
}

fn copy_bytes(b: &Vec<u8>) -> (r: Vec<u8>)
    ensures
        r@ == b@,
{
    let mut out: Vec<u8> = Vec::new();
    let mut i: usize = 0;
    while i < b.len()
        invariant
            i <= b@.len(),
            out@ == b@.take(i as int),
        decreases b.len() - i,
    {
        out.push(b[i]);
        assert(b@.take(i + 1) =~= b@.take(i as int).push(b@[i as int]));
        i += 1;
    }
    assert(b@.take(b@.len() as int) =~= b@);
    out
}

/// The xray binary of the release archive `archive`: the contents of its
/// last entry named `xray` or ending in `/xray`, or none; an archive that
/// cannot be read, an entry that cannot be opened, and a binary that cannot
/// be read are errors.
pub fn xray_binary_from_archive(archive: &[u8]) -> (r: Result<Option<Vec<u8>>, String>)
    ensures
        match xray_binary_of(archive@) {
            Ok(None) => r matches Ok(None),
            Ok(Some(b)) => r matches Ok(Some(v)) && v@ == b,
            Err(e) => r matches Err(m) && m@ == e,
        },
{
    let entries = match read_archive(archive) {
        Ok(v) => v,
        Err(e) => return Err(concat("Zip parse failed: ", e.as_str())),
    };
    let ghost es = entry_views(entries@);
    let mut found: Option<Vec<u8>> = None;
    let mut i: usize = 0;
    while i < entries.len()
        invariant
            i <= entries@.len(),
            es == entry_views(entries@),
            zip_listing(archive@) == Ok::<Seq<EntryView>, Seq<char>>(es),
            binary_in(es.take(i as int)) == Ok::<Option<Seq<u8>>, Seq<char>>(match found {
                Some(v) => Some(v@),
                None => None,
            }),
        decreases entries.len() - i,
    {
        assert(es.take(i + 1).drop_last() =~= es.take(i as int));
        assert(es.take(i + 1).last() == entry_view(entries@[i as int]));
        match &entries[i] {
            ArchiveEntry::Unopened(e) => {
                let m = concat("called `Result::unwrap()` on an `Err` value: ", e.as_str());
                proof { lemma_binary_err_prefix(es, i + 1, m@); }
                return Err(m);
            },
            ArchiveEntry::Entry(name, contents) => {
                if is_xray_entry(name.as_str()) {
                    match contents {
                        Ok(b) => {
                            found = Some(copy_bytes(b));
                        },
                        Err(e) => {
                            let m = concat("Write failed: ", e.as_str());
                            proof { lemma_binary_err_prefix(es, i + 1, m@); }
                            return Err(m);
                        },
                    }
                }
            },
        }
        i += 1;
    }
    assert(es.take(entries@.len() as int) =~= es);
    Ok(found)
}

} // verus!
