//! Where documents, forks and diff files go, and how the files of a folder
//! are listed.

use vstd::prelude::*;
use vstd::utf8::{encode_utf8, is_char_boundary, decode_utf8};
use vstd::string::StringSliceAdditionalSpecFns;
use crate::document::versioning::{DocumentStatus, FolderRegistry};
use crate::support::hashing::{hex_encode, hex_lower};
use crate::support::paths::{
    path_extension, path_extension_of, path_file_name, path_file_name_of, path_file_stem, path_join,
    path_join_of, path_parent, path_parent_of, path_stem_of,
};

verus! {

broadcast use vstd::utf8::encode_utf8_decode_utf8;

/// Whether a file is tracked by its folder's registry.
#[derive(Debug, Clone, Copy, PartialEq, Eq, Structural)]
pub enum TrackingStatus {
    IsTracked,
    PendingVote,
    NotTracked,
}

/// One line of a listing of the documents folder.
#[derive(Debug)]
pub struct FileListEntry {
    pub path: String,
    pub is_dir: bool,
    pub tracking_status: TrackingStatus,
    pub version: Option<u64>,
    pub doc_status: Option<DocumentStatus>,
    /// Whether the network has accepted the file.
    pub is_network: bool,
    pub threshold_signature_hex: Option<String>,
    pub frost_threshold: Option<u16>,
    pub frost_total: Option<u16>,
    pub group_public_key_hex: Option<String>,
}

/// The path of the entry `name` inside the folder listed as `prefix`.
pub open spec fn child_path_of(prefix: Seq<char>, name: Seq<char>) -> Seq<char> {
    if prefix.len() == 0 {
        name
    } else {
        prefix + "/"@ + name
    }
}

/// The path of the entry `name` inside the folder listed as `prefix`: the
/// name alone at the top, else `prefix/name`.
pub fn child_path(prefix: &str, name: &str) -> (p: String)
    ensures
        p@ == child_path_of(prefix@, name@),
{
    if prefix.unicode_len() == 0 {
        String::from_str(name)
    } else {
        let mut p = String::from_str(prefix);
        p.append("/");
        p.append(name);
        p
    }
}

/// Whether a directory entry is hidden from listings: its name starts with
/// a dot.
pub fn is_hidden_name(name: &str) -> (b: bool)
    ensures
        b == (name@.len() > 0 && name@[0] == '.'),
{
    name.unicode_len() > 0 && name.get_char(0) == '.'
}

/// Whether a file is a saved diff: its name ends with `.diff`.
pub fn is_diff_name(name: &str) -> (b: bool)
    ensures
        b == (name@.len() >= 5 && name@.subrange(name@.len() - 5, name@.len() as int) == ".diff"@),
{
    proof {
        reveal_strlit(".diff");
    }
    let n = name.unicode_len();
    if n < 5 {
        return false;
    }
    let b = name.get_char(n - 5) == '.' && name.get_char(n - 4) == 'd' && name.get_char(n - 3) == 'i'
        && name.get_char(n - 2) == 'f' && name.get_char(n - 1) == 'f';
    proof {
        let tail = name@.subrange(n - 5, n as int);
        if b {
            assert(tail =~= ".diff"@);
        } else {
            assert(tail != ".diff"@) by {
                if tail == ".diff"@ {
                    assert(tail[0] == name@[n - 5]);
                    assert(tail[1] == name@[n - 4]);
                    assert(tail[2] == name@[n - 3]);
                    assert(tail[3] == name@[n - 2]);
                    assert(tail[4] == name@[n - 1]);
                }
            }
        }
    }
    b
}

/// The listing entry for the entry at `relative` in a folder whose registry
/// is `reg`: a folder, a tracked document with what the registry records,
/// or an untracked file.
pub fn file_list_entry(reg: &FolderRegistry, relative: &str, is_dir: bool) -> (e: FileListEntry)
    requires
        reg.wf(),
    ensures
        e.path@ == relative@,
        e.is_dir == is_dir,
        e.is_network == false,
        is_dir || !reg.documents@.contains_key(relative@) ==> {
            &&& e.tracking_status == TrackingStatus::NotTracked
            &&& e.version is None
            &&& e.doc_status is None
            &&& e.threshold_signature_hex is None
            &&& e.frost_threshold is None
            &&& e.frost_total is None
            &&& e.group_public_key_hex is None
        },
        !is_dir && reg.documents@.contains_key(relative@) ==> {
            let meta = reg.documents@[relative@];
            &&& e.tracking_status == TrackingStatus::IsTracked
            &&& e.version == Some(meta.version)
            &&& e.doc_status == Some(meta.status)
            &&& e.threshold_signature_hex.is_some() == meta.threshold_signature.is_some()
            &&& e.threshold_signature_hex matches Some(h) ==> h@ == hex_lower(meta.threshold_signature->0@)
            &&& e.frost_threshold == meta.frost_threshold
            &&& e.frost_total == meta.frost_total
            &&& e.group_public_key_hex.is_some() == meta.group_public_key.is_some()
            &&& e.group_public_key_hex matches Some(h) ==> h@ == hex_lower(meta.group_public_key->0@)
        },
{
    let untracked = FileListEntry {
        path: String::from_str(relative),
        is_dir,
        tracking_status: TrackingStatus::NotTracked,
        version: None,
        doc_status: None,
        is_network: false,
        threshold_signature_hex: None,
        frost_threshold: None,
        frost_total: None,
        group_public_key_hex: None,
    };
    if is_dir {
        return untracked;
    }
    match reg.get_document(relative) {
        Some(meta) => {
            let threshold_signature_hex = match &meta.threshold_signature {
                Some(s) => Some(hex_encode(s.as_slice())),
                None => None,
            };
            let group_public_key_hex = match &meta.group_public_key {
                Some(k) => Some(hex_encode(k.as_slice())),
                None => None,
            };
            FileListEntry {
                path: String::from_str(relative),
                is_dir: false,
                tracking_status: TrackingStatus::IsTracked,
                version: Some(meta.version),
                doc_status: Some(meta.status.clone()),
                is_network: false,
                threshold_signature_hex,
                frost_threshold: meta.frost_threshold,
                frost_total: meta.frost_total,
                group_public_key_hex,
            }
        },
        None => untracked,
    }
}

/// Where a fork of the document at `relative_path` goes: `new_name` beside
/// it when given, else `<stem>-fork-<suffix><.ext>` beside it.
pub open spec fn fork_path_of(relative_path: Seq<char>, new_name: Option<Seq<char>>, suffix: Seq<char>) -> Seq<char> {
    let parent = match path_parent_of(relative_path) {
        Some(p) => p,
        None => Seq::<char>::empty(),
    };
    match new_name {
        Some(name) => path_join_of(parent, name),
        None => {
            let stem = match path_stem_of(relative_path) {
                Some(s) => s,
                None => Seq::<char>::empty(),
            };
            let ext = match path_extension_of(relative_path) {
                Some(e) => "."@ + e,
                None => Seq::<char>::empty(),
            };
            path_join_of(parent, stem + "-fork-"@ + suffix + ext)
        },
    }
}

/// Where a fork of the document at `relative_path` goes, see
/// `fork_path_of`; `suffix` is the time of the fork, written
/// `YYYYMMDDhhmmss`.
pub fn fork_target_path(relative_path: &str, new_name: Option<&str>, suffix: &str) -> (p: String)
    ensures
        p@ == fork_path_of(relative_path@, match new_name {
            Some(n) => Some(n@),
            None => None,
        }, suffix@),
{
    let parent = match path_parent(relative_path) {
        Some(p) => p,
        None => String::new(),
    };
    match new_name {
        Some(name) => path_join(parent.as_str(), name),
        None => {
            let mut file_name = match path_file_stem(relative_path) {
                Some(s) => s,
                None => String::new(),
            };
            file_name.append("-fork-");
            file_name.append(suffix);
            match path_extension(relative_path) {
                Some(e) => {
                    file_name.append(".");
                    file_name.append(e.as_str());
                },
                None => {},
            }
            proof {
                reveal_strlit("-fork-");
                reveal_strlit(".");
                let stem = match path_stem_of(relative_path@) {
                    Some(s) => s,
                    None => Seq::<char>::empty(),
                };
                let ext = match path_extension_of(relative_path@) {
                    Some(e) => "."@ + e,
                    None => Seq::<char>::empty(),
                };
                assert(file_name@ =~= stem + "-fork-"@ + suffix@ + ext);
            }
            path_join(parent.as_str(), file_name.as_str())
        },
    }
}

/// The number of bytes of a proposer's digest that name its diff files.
pub open spec fn proposer_tag_len(proposer: Seq<char>) -> int {
    if encode_utf8(proposer).len() < 8 {
        encode_utf8(proposer).len() as int
    } else {
        8
    }
}

/// The name of the file that keeps a proposed diff of the document at
/// `relative_path`: its file name, the time of the proposal, the first eight
/// bytes of the proposer's digest, and `.diff`, separated by dots.
pub open spec fn diff_file_name_of(relative_path: Seq<char>, timestamp: Seq<char>, proposer: Seq<char>) -> Seq<char> {
    let stem = match path_file_name_of(relative_path) {
        Some(n) => n,
        None => Seq::<char>::empty(),
    };
    stem + "."@ + timestamp + "."@ + decode_utf8(encode_utf8(proposer).take(proposer_tag_len(proposer)))
        + ".diff"@
}

/// The name of the file that keeps a proposed diff, see `diff_file_name_of`;
/// `timestamp` is the time of the proposal, written `YYYYMMDDhhmmss`.
pub fn diff_file_name(relative_path: &str, timestamp: &str, proposer: &str) -> (n: String)
    requires
        is_char_boundary(encode_utf8(proposer@), proposer_tag_len(proposer@)),
    ensures
        n@ == diff_file_name_of(relative_path@, timestamp@, proposer@),
{
    let mut name = match path_file_name(relative_path) {
        Some(s) => s,
        None => String::new(),
    };
    let byte_len = proposer.as_bytes().len();
    let k: usize = if byte_len < 8 {
        byte_len
    } else {
        8
    };
    assert(proposer.spec_bytes() == encode_utf8(proposer@));
    assert(k as int == proposer_tag_len(proposer@));
    let (tag, _) = proposer.split_at(k);
    name.append(".");
    name.append(timestamp);
    name.append(".");
    name.append(tag);
    name.append(".diff");
    proof {
        reveal_strlit(".");
        reveal_strlit(".diff");
        assert(encode_utf8(proposer@).take(k as int) =~= encode_utf8(proposer@).subrange(0, k as int));
    }
    name
}

} // verus!
