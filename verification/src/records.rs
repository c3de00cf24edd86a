//! Typed records decoded from engine output: snapshots from a JSON
//! array, file entries from a line stream with a banner line and noise
//! lines in between.

use vstd::prelude::*;

use crate::json::{
    field_lookup, get_field, opt_int_ok, opt_int_val, opt_list_ok, opt_list_val, opt_str_ok, opt_str_val,
    parse_json_record, parse_json_record_array, record_array_of, record_of, str_field_ok,
    str_field_val, Field, Record,
};
use crate::text::{split_char, split_on, str_eq, views_of};

verus! {

/// A file entry, as listed by the engine for one snapshot.
#[derive(Debug)]
pub struct File {
    pub name: String,
    pub type_: String,
    pub path: String,
    pub uid: i64,
    pub gid: i64,
    pub size: i64,
    pub mode: i64,
    pub mtime: String,
    pub atime: String,
    pub ctime: String,
}

/// A snapshot, as listed by the engine for one repository.
#[derive(Debug)]
pub struct Snapshot {
    pub id: String,
    pub short_id: String,
    pub time: String,
    pub paths: Vec<String>,
    pub tags: Vec<String>,
    pub hostname: String,
    pub username: String,
}

/// Whether a record holds every field a file entry needs: name, type and
/// path as strings; the numeric and time fields, where present, of the
/// right shape.
pub open spec fn file_record_ok(rec: Seq<(String, Field)>) -> bool {
    &&& str_field_ok(rec, "name"@)
    &&& str_field_ok(rec, "type"@)
    &&& str_field_ok(rec, "path"@)
    &&& opt_int_ok(rec, "uid"@)
    &&& opt_int_ok(rec, "gid"@)
    &&& opt_int_ok(rec, "size"@)
    &&& opt_int_ok(rec, "mode"@)
    &&& opt_str_ok(rec, "mtime"@)
    &&& opt_str_ok(rec, "atime"@)
    &&& opt_str_ok(rec, "ctime"@)
}

/// Whether `f` is the file entry a record decodes to: absent numeric
/// fields count as zero, absent time fields as empty.
pub open spec fn is_decoded_file(rec: Seq<(String, Field)>, f: File) -> bool {
    &&& f.name@ == str_field_val(rec, "name"@)
    &&& f.type_@ == str_field_val(rec, "type"@)
    &&& f.path@ == str_field_val(rec, "path"@)
    &&& f.uid == opt_int_val(rec, "uid"@)
    &&& f.gid == opt_int_val(rec, "gid"@)
    &&& f.size == opt_int_val(rec, "size"@)
    &&& f.mode == opt_int_val(rec, "mode"@)
    &&& f.mtime@ == opt_str_val(rec, "mtime"@)
    &&& f.atime@ == opt_str_val(rec, "atime"@)
    &&& f.ctime@ == opt_str_val(rec, "ctime"@)
}

/// Whether a record holds every field a snapshot needs: id and short id
/// as strings; the other fields, where present, of the right shape.
pub open spec fn snapshot_record_ok(rec: Seq<(String, Field)>) -> bool {
    &&& str_field_ok(rec, "id"@)
    &&& str_field_ok(rec, "short_id"@)
    &&& opt_str_ok(rec, "time"@)
    &&& opt_list_ok(rec, "paths"@)
    &&& opt_list_ok(rec, "tags"@)
    &&& opt_str_ok(rec, "hostname"@)
    &&& opt_str_ok(rec, "username"@)
}

/// Whether `s` is the snapshot a record decodes to: absent list fields
/// count as empty lists, absent string fields as empty.
pub open spec fn is_decoded_snapshot(rec: Seq<(String, Field)>, s: Snapshot) -> bool {
    &&& s.id@ == str_field_val(rec, "id"@)
    &&& s.short_id@ == str_field_val(rec, "short_id"@)
    &&& s.time@ == opt_str_val(rec, "time"@)
    &&& views_of(s.paths@) == opt_list_val(rec, "paths"@)
    &&& views_of(s.tags@) == opt_list_val(rec, "tags"@)
    &&& s.hostname@ == opt_str_val(rec, "hostname"@)
    &&& s.username@ == opt_str_val(rec, "username"@)
}

/// Reads a required string field.
fn req_str(rec: &Record, name: &str) -> (r: Option<String>)
    ensures
        match r {
            Some(s) => str_field_ok(rec@, name@) && s@ == str_field_val(rec@, name@),
            None => !str_field_ok(rec@, name@),
        },
{
    match get_field(rec, name) {
        Some(Field::Str(s)) => Some(s.clone()),
        _ => None,
    }
}

/// Reads an optional string field, empty where absent.
fn opt_str(rec: &Record, name: &str) -> (r: Option<String>)
    ensures
        match r {
            Some(s) => opt_str_ok(rec@, name@) && s@ == opt_str_val(rec@, name@),
            None => !opt_str_ok(rec@, name@),
        },
{
    match get_field(rec, name) {
        Some(Field::Str(s)) => Some(s.clone()),
        None => Some(String::new()),
        Some(_) => None,
    }
}

/// Reads an optional integer field, zero where absent.
fn opt_int(rec: &Record, name: &str) -> (r: Option<i64>)
    ensures
        match r {
            Some(v) => opt_int_ok(rec@, name@) && v == opt_int_val(rec@, name@),
            None => !opt_int_ok(rec@, name@),
        },
{
    match get_field(rec, name) {
        Some(Field::Int(v)) => Some(*v),
        None => Some(0),
        Some(_) => None,
    }
}

/// Reads an optional string-list field, empty where absent; a list with
/// a non-string element fails.
fn opt_list(rec: &Record, name: &str) -> (r: Option<Vec<String>>)
    ensures
        match r {
            Some(v) => opt_list_ok(rec@, name@) && views_of(v@) == opt_list_val(rec@, name@),
            None => !opt_list_ok(rec@, name@),
        },
{
    match get_field(rec, name) {
        Some(Field::List(items)) => {
            let mut out: Vec<String> = Vec::new();
            let mut i: usize = 0;
            proof {
                assert(views_of(out@) =~~= items@.map_values(|o: Option<String>| o->0@).subrange(
                    0,
                    0,
                ));
            }
            while i < items.len()
                invariant
                    0 <= i <= items@.len(),
                    field_lookup(rec@, name@) == Some(Field::List(*items)),
                    forall|k: int| 0 <= k < i ==> (#[trigger] items@[k]) is Some,
                    views_of(out@) == items@.map_values(|o: Option<String>| o->0@).subrange(
                        0,
                        i as int,
                    ),
                decreases items@.len() - i,
            {
                match &items[i] {
                    Some(s) => {
                        let ghost out0 = out@;
                        out.push(s.clone());
                        proof {
                            assert(views_of(out@) =~~= views_of(out0).push(items@[i as int]->0@));
                            assert(views_of(out@) =~~= items@.map_values(
                                |o: Option<String>| o->0@,
                            ).subrange(0, i + 1));
                        }
                    },
                    None => {
                        proof {
                            assert(!((#[trigger] items@[i as int]) is Some));
                        }
                        return None;
                    },
                }
                i = i + 1;
            }
            proof {
                let full = items@.map_values(|o: Option<String>| o->0@);
                assert(full.subrange(0, full.len() as int) =~= full);
            }
            Some(out)
        },
        None => {
            proof {
                assert(views_of(Seq::<String>::empty()) =~~= Seq::<Seq<char>>::empty());
            }
            Some(Vec::new())
        },
        Some(_) => None,
    }
}

/// Decodes a record as a file entry: `name`, `type` and `path` must be
/// strings; `uid`, `gid`, `size` and `mode` default to zero and the time
/// fields to empty where absent; any field of the wrong shape fails.
pub fn decode_file(rec: &Record) -> (r: Result<File, String>)
    ensures
        match r {
            Ok(f) => file_record_ok(rec@) && is_decoded_file(rec@, f),
            Err(_) => !file_record_ok(rec@),
        },
{
    let name = match req_str(rec, "name") {
        Some(s) => s,
        None => {
            return Err("file entry field 'name' is missing or not a string".to_owned());
        },
    };
    let type_ = match req_str(rec, "type") {
        Some(s) => s,
        None => {
            return Err("file entry field 'type' is missing or not a string".to_owned());
        },
    };
    let path = match req_str(rec, "path") {
        Some(s) => s,
        None => {
            return Err("file entry field 'path' is missing or not a string".to_owned());
        },
    };
    let uid = match opt_int(rec, "uid") {
        Some(v) => v,
        None => {
            return Err("file entry field 'uid' is not an integer".to_owned());
        },
    };
    let gid = match opt_int(rec, "gid") {
        Some(v) => v,
        None => {
            return Err("file entry field 'gid' is not an integer".to_owned());
        },
    };
    let size = match opt_int(rec, "size") {
        Some(v) => v,
        None => {
            return Err("file entry field 'size' is not an integer".to_owned());
        },
    };
    let mode = match opt_int(rec, "mode") {
        Some(v) => v,
        None => {
            return Err("file entry field 'mode' is not an integer".to_owned());
        },
    };
    let mtime = match opt_str(rec, "mtime") {
        Some(s) => s,
        None => {
            return Err("file entry field 'mtime' is not a string".to_owned());
        },
    };
    let atime = match opt_str(rec, "atime") {
        Some(s) => s,
        None => {
            return Err("file entry field 'atime' is not a string".to_owned());
        },
    };
    let ctime = match opt_str(rec, "ctime") {
        Some(s) => s,
        None => {
            return Err("file entry field 'ctime' is not a string".to_owned());
        },
    };
    Ok(File { name, type_, path, uid, gid, size, mode, mtime, atime, ctime })
}

/// Decodes a record as a snapshot: `id` and `short_id` must be strings;
/// `paths` and `tags` default to empty lists and the other fields to
/// empty strings where absent; any field of the wrong shape fails.
pub fn decode_snapshot(rec: &Record) -> (r: Result<Snapshot, String>)
    ensures
        match r {
            Ok(s) => snapshot_record_ok(rec@) && is_decoded_snapshot(rec@, s),
            Err(_) => !snapshot_record_ok(rec@),
        },
{
    let id = match req_str(rec, "id") {
        Some(s) => s,
        None => {
            return Err("snapshot field 'id' is missing or not a string".to_owned());
        },
    };
    let short_id = match req_str(rec, "short_id") {
        Some(s) => s,
        None => {
            return Err("snapshot field 'short_id' is missing or not a string".to_owned());
        },
    };
    let time = match opt_str(rec, "time") {
        Some(s) => s,
        None => {
            return Err("snapshot field 'time' is not a string".to_owned());
        },
    };
    let paths = match opt_list(rec, "paths") {
        Some(v) => v,
        None => {
            return Err("snapshot field 'paths' is not a list of strings".to_owned());
        },
    };
    let tags = match opt_list(rec, "tags") {
        Some(v) => v,
        None => {
            return Err("snapshot field 'tags' is not a list of strings".to_owned());
        },
    };
    let hostname = match opt_str(rec, "hostname") {
        Some(s) => s,
        None => {
            return Err("snapshot field 'hostname' is not a string".to_owned());
        },
    };
    let username = match opt_str(rec, "username") {
        Some(s) => s,
        None => {
            return Err("snapshot field 'username' is not a string".to_owned());
        },
    };
    Ok(Snapshot { id, short_id, time, paths, tags, hostname, username })
}

/// Decodes engine snapshot-listing output: the whole text must be one
/// well-formed JSON array of snapshot records; a decode failure anywhere
/// is fatal to the call.
pub fn parse_snapshots(text: &str) -> (r: Result<Vec<Snapshot>, String>)
    ensures
        match r {
            Ok(snaps) => record_array_of(text@) matches Ok(recs) && recs@.len() == snaps@.len()
                && forall|k: int|
                0 <= k < snaps@.len() ==> snapshot_record_ok(#[trigger] recs@[k]@)
                    && is_decoded_snapshot(recs@[k]@, snaps@[k]),
            Err(_) => match record_array_of(text@) {
                Ok(recs) => exists|k: int|
                    0 <= k < recs@.len() && !snapshot_record_ok(#[trigger] recs@[k]@),
                Err(_) => true,
            },
        },
{
    let recs = match parse_json_record_array(text) {
        Ok(recs) => recs,
        Err(e) => {
            return Err(e);
        },
    };
    let mut snaps: Vec<Snapshot> = Vec::new();
    let mut i: usize = 0;
    while i < recs.len()
        invariant
            0 <= i <= recs@.len(),
            record_array_of(text@) == Ok::<Vec<Record>, String>(recs),
            snaps@.len() == i,
            forall|k: int|
                0 <= k < i ==> snapshot_record_ok(#[trigger] recs@[k]@) && is_decoded_snapshot(
                    recs@[k]@,
                    snaps@[k],
                ),
        decreases recs@.len() - i,
    {
        match decode_snapshot(&recs[i]) {
            Ok(s) => {
                snaps.push(s);
            },
            Err(e) => {
                proof {
                    assert(!snapshot_record_ok(recs@[i as int]@));
                    match record_array_of(text@) {
                        Ok(recs2) => {
                            assert(recs2 == recs);
                            assert(!snapshot_record_ok(recs2@[i as int]@));
                            assert(exists|k: int|
                                0 <= k < recs2@.len() && !snapshot_record_ok(
                                    #[trigger] recs2@[k]@,
                                ));
                        },
                        Err(_) => {},
                    }
                }
                return Err(e);
            },
        }
        i = i + 1;
    }
    Ok(snaps)
}

/// Whether a listing line is decoded at all: it must be non-empty and
/// open a JSON object.
pub open spec fn kept_line(l: Seq<char>) -> bool {
    l.len() > 0 && l[0] == '{'
}

/// The lines of a listing that are decoded, in order.
pub open spec fn kept_lines(lines: Seq<Seq<char>>) -> Seq<Seq<char>>
    decreases lines.len(),
{
    if lines.len() == 0 {
        Seq::empty()
    } else {
        let rest = kept_lines(lines.drop_last());
        if kept_line(lines.last()) {
            rest.push(lines.last())
        } else {
            rest
        }
    }
}

/// The data lines of listing output: everything after the first line,
/// which is an engine banner and unconditionally skipped.
pub open spec fn listing_lines(text: Seq<char>) -> Seq<Seq<char>> {
    split_on(text, '\n').drop_first()
}

/// Whether a kept listing line decodes as a file entry.
pub open spec fn line_ok(l: Seq<char>) -> bool {
    match record_of(l) {
        Ok(rec) => file_record_ok(rec@),
        Err(_) => false,
    }
}

/// Whether every kept line of listing output decodes.
pub open spec fn listing_ok(text: Seq<char>) -> bool {
    forall|k: int|
        0 <= k < kept_lines(listing_lines(text)).len() ==> line_ok(
            #[trigger] kept_lines(listing_lines(text))[k],
        )
}

proof fn lemma_kept_lines_prefix(u: Seq<Seq<char>>, j: int)
    requires
        0 <= j <= u.len(),
    ensures
        kept_lines(u.take(j)).len() <= kept_lines(u).len(),
        forall|k: int|
            0 <= k < kept_lines(u.take(j)).len() ==> #[trigger] kept_lines(u)[k] == kept_lines(
                u.take(j),
            )[k],
    decreases u.len() - j,
{
    if j < u.len() {
        lemma_kept_lines_prefix(u, j + 1);
        assert(u.take(j + 1).drop_last() =~= u.take(j));
        assert(u.take(j + 1).last() == u[j]);
    } else {
        assert(u.take(j) =~= u);
    }
}

/// Decodes engine file-listing output: the first line is skipped
/// unconditionally, empty lines and lines not opening a JSON object are
/// skipped silently, and every remaining line must decode as one file
/// entry — a failure there discards the whole listing.
pub fn parse_file_listing(text: &str) -> (r: Result<Vec<File>, String>)
    ensures
        match r {
            Ok(files) => listing_ok(text@) && files@.len() == kept_lines(
                listing_lines(text@),
            ).len() && forall|k: int|
                0 <= k < files@.len() ==> (record_of(
                    #[trigger] kept_lines(listing_lines(text@))[k],
                ) matches Ok(rec) && is_decoded_file(rec@, files@[k])),
            Err(_) => !listing_ok(text@),
        },
{
    let lines = split_char(text, '\n');
    let ghost all = listing_lines(text@);
    proof {
        crate::text::lemma_split_on_len(text@, '\n');
        assert(all =~= views_of(lines@).drop_first());
    }
    let mut files: Vec<File> = Vec::new();
    let mut i: usize = 1;
    proof {
        assert(all.take(0) =~= Seq::<Seq<char>>::empty());
    }
    while i < lines.len()
        invariant
            1 <= i <= lines@.len(),
            all == listing_lines(text@),
            all.len() == lines@.len() - 1,
            forall|j: int| 0 <= j < all.len() ==> #[trigger] all[j] == lines@[j + 1]@,
            files@.len() == kept_lines(all.take(i - 1)).len(),
            forall|k: int|
                0 <= k < kept_lines(all.take(i - 1)).len() ==> line_ok(
                    #[trigger] kept_lines(all.take(i - 1))[k],
                ),
            forall|k: int|
                0 <= k < files@.len() ==> (record_of(
                    #[trigger] kept_lines(all.take(i - 1))[k],
                ) matches Ok(rec) && is_decoded_file(rec@, files@[k])),
        decreases lines@.len() - i,
    {
        let line = &lines[i];
        let ghost l = all[i - 1];
        let ghost prev = all.take(i - 1);
        proof {
            assert(all.take(i as int).drop_last() =~= prev);
            assert(all.take(i as int).last() == l);
        }
        let keep = if line.as_str().is_empty() {
            false
        } else {
            line.as_str().get_char(0) == '{'
        };
        proof {
            assert(keep == kept_line(l));
        }
        if keep {
            let rec = match parse_json_record(line.as_str()) {
                Ok(rec) => rec,
                Err(e) => {
                    proof {
                        let m = kept_lines(prev).len() as int;
                        assert(kept_lines(all.take(i as int)) == kept_lines(prev).push(l));
                        assert(kept_lines(all.take(i as int))[m] == l);
                        lemma_kept_lines_prefix(all, i as int);
                        assert(kept_lines(all)[m] == l);
                        assert(!line_ok(l));
                    }
                    return Err(e);
                },
            };
            match decode_file(&rec) {
                Ok(f) => {
                    files.push(f);
                    proof {
                        assert(kept_lines(all.take(i as int)) == kept_lines(prev).push(l));
                        assert(line_ok(l));
                    }
                },
                Err(e) => {
                    proof {
                        let m = kept_lines(prev).len() as int;
                        assert(kept_lines(all.take(i as int)) == kept_lines(prev).push(l));
                        assert(kept_lines(all.take(i as int))[m] == l);
                        lemma_kept_lines_prefix(all, i as int);
                        assert(kept_lines(all)[m] == l);
                        assert(!line_ok(l));
                    }
                    return Err(e);
                },
            }
        } else {
            proof {
                assert(kept_lines(all.take(i as int)) == kept_lines(prev));
            }
        }
        i = i + 1;
    }
    proof {
        assert(all.take(lines@.len() - 1) =~= all);
    }
    Ok(files)
}

/// Whether some string in the list reads `s`.
pub open spec fn contains_str(v: Seq<String>, s: Seq<char>) -> bool {
    exists|i: int| 0 <= i < v.len() && (#[trigger] v[i])@ == s
}

/// Tests whether the list holds a string reading `s`.
pub fn contains_string(v: &Vec<String>, s: &str) -> (r: bool)
    ensures
        r == contains_str(v@, s@),
{
    let mut i: usize = 0;
    while i < v.len()
        invariant
            0 <= i <= v@.len(),
            forall|k: int| 0 <= k < i ==> (#[trigger] v@[k])@ != s@,
        decreases v@.len() - i,
    {
        if str_eq(v[i].as_str(), s) {
            return true;
        }
        i = i + 1;
    }
    false
}

/// Collects the distinct snapshot ids of a listing, first occurrence
/// order, for validating later requests against what was actually
/// returned.
pub fn collect_snapshot_ids(snapshots: &Vec<Snapshot>) -> (r: Vec<String>)
    ensures
        forall|s: Seq<char>|
            #[trigger] contains_str(r@, s) <==> exists|k: int|
                0 <= k < snapshots@.len() && (#[trigger] snapshots@[k].id)@ == s,
        forall|a: int, b: int| 0 <= a < b < r@.len() ==> (#[trigger] r@[a])@ != (#[trigger] r@[b])@,
{
    let mut out: Vec<String> = Vec::new();
    let mut i: usize = 0;
    while i < snapshots.len()
        invariant
            0 <= i <= snapshots@.len(),
            forall|s: Seq<char>|
                #[trigger] contains_str(out@, s) <==> exists|k: int|
                    0 <= k < i && (#[trigger] snapshots@[k].id)@ == s,
            forall|a: int, b: int|
                0 <= a < b < out@.len() ==> (#[trigger] out@[a])@ != (#[trigger] out@[b])@,
        decreases snapshots@.len() - i,
    {
        let id = &snapshots[i].id;
        if !contains_string(&out, id.as_str()) {
            let ghost out0 = out@;
            out.push(id.clone());
            proof {
                assert forall|s: Seq<char>| #[trigger]
                    contains_str(out@, s) <==> exists|k: int|
                        0 <= k < i + 1 && (#[trigger] snapshots@[k].id)@ == s by {
                    if contains_str(out@, s) {
                        let w = choose|w: int| 0 <= w < out@.len() && (#[trigger] out@[w])@ == s;
                        if w < out0.len() {
                            assert(contains_str(out0, s));
                        } else {
                            assert(snapshots@[i as int].id@ == s);
                        }
                    }
                    if exists|k: int| 0 <= k < i + 1 && (#[trigger] snapshots@[k].id)@ == s {
                        let k = choose|k: int|
                            0 <= k < i + 1 && (#[trigger] snapshots@[k].id)@ == s;
                        if k < i {
                            assert(contains_str(out0, s));
                            let w = choose|w: int|
                                0 <= w < out0.len() && (#[trigger] out0[w])@ == s;
                            assert(out@[w]@ == s);
                        } else {
                            assert(out@[out@.len() - 1]@ == s);
                        }
                    }
                }
            }
        } else {
            proof {
                assert forall|s: Seq<char>| #[trigger]
                    contains_str(out@, s) <==> exists|k: int|
                        0 <= k < i + 1 && (#[trigger] snapshots@[k].id)@ == s by {
                    if exists|k: int| 0 <= k < i + 1 && (#[trigger] snapshots@[k].id)@ == s {
                        let k = choose|k: int|
                            0 <= k < i + 1 && (#[trigger] snapshots@[k].id)@ == s;
                        if k == i {
                            assert(contains_str(out@, snapshots@[i as int].id@));
                        }
                    }
                }
            }
        }
        i = i + 1;
    }
    out
}

/// The file name a dumped entry lands in: directories are wrapped in an
/// archive, so their dump carries an archive suffix; plain files keep
/// their name.
pub open spec fn dump_name_spec(f: File) -> Seq<char> {
    if f.type_@ == "dir"@ {
        f.name@ + ".zip"@
    } else {
        f.name@
    }
}

/// The target file name for dumping one entry: the entry's name, with an
/// archive suffix appended for a directory.
pub fn dump_file_name(file: &File) -> (r: String)
    ensures
        r@ == dump_name_spec(*file),
{
    if str_eq(file.type_.as_str(), "dir") {
        crate::text::concat_strs(file.name.as_str(), ".zip")
    } else {
        file.name.clone()
    }
}

} // verus!
