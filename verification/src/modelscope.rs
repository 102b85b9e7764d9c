//! Model download planning for ModelScope repositories: model id parsing,
//! the flat `{org}/{name}` cache layout, weight-file selection and the order
//! in which a repository's files are fetched.

use vstd::prelude::*;
use vstd::string::StringSliceAdditionalSpecFns;

use crate::text::{
    chars_eq, chars_lt, contains_chars, contains_seq, ends_with, ends_with_chars, find_char,
    lemma_lex_transitive, lemma_lex_trichotomy, lex_lt, push_all, push_str, slice_to_vec,
    str_chars, string_from_chars, trim_bounds, trim_spec,
};

verus! {

/// Why a model id, a listing or a repository was refused.
#[derive(Clone, Debug, PartialEq, Eq)]
pub enum ModelScopeError {
    /// Not of the form `<org>/<name>`.
    InvalidModelId(String),
    /// Neither `MODELSCOPE_CACHE` nor `HOME` is set.
    HomeNotSet,
    /// The listing answered with a business code other than 200.
    ListingCode(i64),
    /// The repository lists no files.
    EmptyFileList,
    /// The repository holds no weight file.
    NoWeightFiles,
    /// The repository has none of `config.json`, `tokenizer.json`,
    /// `tokenizer_config.json`.
    MissingMandatoryFiles,
}

/// One entry of a repository file listing.
#[derive(Clone, Debug, PartialEq, Eq)]
pub struct FileEntry {
    pub path: String,
    pub size: u64,
    pub file_type: String,
}

/// A repository file listing as the listing endpoint answers it.
#[derive(Clone, Debug, PartialEq, Eq)]
pub struct RepoFilesResponse {
    pub code: i64,
    pub files: Vec<FileEntry>,
}

/// `org` and `name` of a model id `<org>/<name>`, surrounding white space
/// ignored.
pub open spec fn is_model_id_split(model_id: Seq<char>, org: Seq<char>, name: Seq<char>) -> bool {
    &&& org.len() > 0
    &&& name.len() > 0
    &&& !org.contains('/')
    &&& !name.contains('/')
    &&& trim_spec(model_id) == org + seq!['/'] + name
}

/// Splits a model id `<org>/<name>`; nested paths, a missing org or a
/// missing name are refused.
pub fn parse_model_id(model_id: &str) -> (r: Result<(&str, &str), ModelScopeError>)
    ensures
        match r {
            Ok((org, name)) => is_model_id_split(model_id@, org@, name@),
            Err(e) => (e matches ModelScopeError::InvalidModelId(m) && m@ == model_id@) && forall|
                o: Seq<char>,
                n: Seq<char>,
            | !is_model_id_split(model_id@, o, n),
        },
{
    let chars = str_chars(model_id);
    let (a, b) = trim_bounds(chars.as_slice());
    let t = slice_to_vec(chars.as_slice(), a, b);
    let ghost tv = trim_spec(model_id@);
    assert(t@ == tv);
    let found = find_char(t.as_slice(), '/');
    match found {
        Some(p) => {
            if p > 0 && p + 1 < t.len() {
                let name_part = slice_to_vec(t.as_slice(), p + 1, t.len());
                if find_char(name_part.as_slice(), '/').is_none() {
                    let org = model_id.substring_char(a, a + p);
                    let name = model_id.substring_char(a + p + 1, b);
                    proof {
                        assert(org@ =~= tv.subrange(0, p as int));
                        assert(name@ =~= tv.subrange(p + 1, tv.len() as int));
                        assert(tv =~= org@ + seq!['/'] + name@);
                        assert(!org@.contains('/')) by {
                            if org@.contains('/') {
                                let k = choose|k: int| 0 <= k < org@.len() && org@[k] == '/';
                                assert(t@[k] == '/');
                            }
                        }
                        assert(!name@.contains('/')) by {
                            if name@.contains('/') {
                                let k = choose|k: int| 0 <= k < name@.len() && name@[k] == '/';
                                assert(name_part@[k] == '/');
                            }
                        }
                    }
                    return Ok((org, name));
                }
                proof {
                    let k = choose|k: int| 0 <= k < name_part@.len() && name_part@[k] == '/';
                    assert forall|o: Seq<char>, n: Seq<char>| !is_model_id_split(model_id@, o, n) by {
                        if is_model_id_split(model_id@, o, n) {
                            reject_split_at(tv, o, n, p as int);
                            assert(n[k] == '/');
                        }
                    }
                }
            } else {
                proof {
                    assert forall|o: Seq<char>, n: Seq<char>| !is_model_id_split(model_id@, o, n) by {
                        if is_model_id_split(model_id@, o, n) {
                            reject_split_at(tv, o, n, p as int);
                        }
                    }
                }
            }
        },
        None => {
            proof {
                assert forall|o: Seq<char>, n: Seq<char>| !is_model_id_split(model_id@, o, n) by {
                    if is_model_id_split(model_id@, o, n) {
                        assert(tv[o.len() as int] == '/');
                    }
                }
            }
        },
    }
    Err(ModelScopeError::InvalidModelId(model_id.to_owned()))
}

/// In `t == o + "/" + n` with `o` free of `/`, the first `/` of `t` sits at
/// `o.len()`.
proof fn reject_split_at(t: Seq<char>, o: Seq<char>, n: Seq<char>, p: int)
    requires
        t == o + seq!['/'] + n,
        !o.contains('/'),
        0 <= p < t.len(),
        t[p] == '/',
        forall|k: int| 0 <= k < p ==> t[k] != '/',
    ensures
        p == o.len(),
        n == t.subrange(p + 1, t.len() as int),
{
    if p < o.len() {
        assert(o[p] == '/');
    }
    assert(t[o.len() as int] == '/');
    assert(n =~= t.subrange(o.len() as int + 1, t.len() as int));
}

/// The extension of a path as `Path::extension` reports it on the build's
/// platform (which characters separate path components depends on it).
pub uninterp spec fn path_extension_of(path: Seq<char>) -> Option<Seq<char>>;

/// The position of the last `c` in `s`.
pub open spec fn last_index_of(s: Seq<char>, c: char) -> Option<int>
    decreases s.len(),
{
    if s.len() == 0 {
        None
    } else if s.last() == c {
        Some(s.len() - 1)
    } else {
        last_index_of(s.drop_last(), c)
    }
}

/// The final component of a `/`-separated path: the text after its last
/// `/`.
pub open spec fn final_component(p: Seq<char>) -> Seq<char> {
    match last_index_of(p, '/') {
        Some(i) => p.subrange(i + 1, p.len() as int),
        None => p,
    }
}

/// A path whose components are separated by `/` alone on every platform (no
/// backslash and no `:`), that does not end in a separator, and whose final
/// component is not `.`: its file name is its final component unless that
/// is `..`.
pub open spec fn plain_path(p: Seq<char>) -> bool {
    &&& p.len() > 0
    &&& !p.contains(':')
    &&& !p.contains('\\')
    &&& p.last() != '/'
    &&& final_component(p) != "."@
}

/// The extension of a plain path as `Path::extension` documents it: none
/// when there is no file name (the final component is `..`), when the file
/// name has no `.`, or when its only `.` is its first character; otherwise
/// the part of the file name after its last `.`.
pub open spec fn plain_path_extension(p: Seq<char>) -> Option<Seq<char>> {
    let name = final_component(p);
    if name == ".."@ {
        None
    } else {
        match last_index_of(name, '.') {
            None => None,
            Some(k) => if k == 0 {
                None
            } else {
                Some(name.subrange(k + 1, name.len() as int))
            },
        }
    }
}

/// `Path::new(path).extension()`, as a string: the part of the final path
/// component after its last `.`, absent when the component has no `.`,
/// starts with its only `.`, or the path ends in `..`. The extension itself
/// holds no `.`. For a plain path the result is `plain_path_extension`; for
/// other paths it depends on the build's platform (on Windows a backslash also
/// separates components and `C:` starts a prefix), and only its name is
/// given.
#[verifier::external_body]
fn path_extension(path: &str) -> (r: Option<String>)
    ensures
        match r {
            Some(e) => path_extension_of(path@) == Some(e@) && !e@.contains('.'),
            None => path_extension_of(path@) is None,
        },
        plain_path(path@) ==> match r {
            Some(e) => plain_path_extension(path@) == Some(e@),
            None => plain_path_extension(path@) is None,
        },
{
    std::path::Path::new(path).extension().and_then(|e| e.to_str()).map(|e| e.to_owned())
}

/// Extensions of weight files.
pub open spec fn is_weight_extension(e: Seq<char>) -> bool {
    e == "safetensors"@ || e == "bin"@ || e == "gguf"@
}

/// An extension, if there is one, that names a weight format.
pub open spec fn weight_ext_given(ext: Option<Seq<char>>) -> bool {
    ext matches Some(e) && is_weight_extension(e)
}

/// A path whose extension names a weight format.
pub open spec fn has_weight_ext_spec(path: Seq<char>) -> bool {
    weight_ext_given(path_extension_of(path))
}

/// The characters of an optional string slice.
pub open spec fn opt_str_view(o: Option<&str>) -> Option<Seq<char>> {
    match o {
        Some(s) => Some(s@),
        None => None,
    }
}

/// Whether an extension names a weight format: `safetensors`, `bin` or
/// `gguf`; no extension names none.
pub fn is_weight_extension_str(ext: Option<&str>) -> (r: bool)
    ensures
        r == weight_ext_given(opt_str_view(ext)),
{
    match ext {
        Some(e) => {
            let ev = str_chars(e);
            let st = str_chars("safetensors");
            let bin = str_chars("bin");
            let gguf = str_chars("gguf");
            chars_eq(ev.as_slice(), st.as_slice()) || chars_eq(ev.as_slice(), bin.as_slice())
                || chars_eq(ev.as_slice(), gguf.as_slice())
        },
        None => false,
    }
}

/// Whether `path` has a weight-file extension: `safetensors`, `bin` or `gguf`.
pub fn has_weight_ext(path: &str) -> (r: bool)
    ensures
        r == has_weight_ext_spec(path@),
        plain_path(path@) ==> r == weight_ext_given(plain_path_extension(path@)),
{
    let e = path_extension(path);
    match &e {
        Some(x) => is_weight_extension_str(Some(x.as_str())),
        None => is_weight_extension_str(None),
    }
}

/// The paths of a listing.
pub open spec fn entry_paths(all: Seq<FileEntry>) -> Seq<Seq<char>> {
    all.map_values(|f: FileEntry| f.path@)
}

/// The `.safetensors` sibling of a `.bin` file.
pub open spec fn safetensors_twin(bin_file: Seq<char>) -> Seq<char> {
    let stem = if ends_with(bin_file, ".bin"@) {
        bin_file.subrange(0, bin_file.len() - 4)
    } else {
        bin_file
    };
    stem + ".safetensors"@
}

/// The listing holds the `.safetensors` sibling of `bin_file`.
pub open spec fn has_twin_spec(paths: Seq<Seq<char>>, bin_file: Seq<char>) -> bool {
    paths.contains(safetensors_twin(bin_file))
}

/// Whether the listing holds the `.safetensors` sibling of `bin_file`.
pub fn has_safetensors_twin(all: &[FileEntry], bin_file: &str) -> (r: bool)
    ensures
        r == has_twin_spec(entry_paths(all@), bin_file@),
{
    let b = str_chars(bin_file);
    let suffix = str_chars(".bin");
    proof {
        reveal_strlit(".bin");
    }
    let mut twin: Vec<char> = if ends_with_chars(b.as_slice(), suffix.as_slice()) {
        slice_to_vec(b.as_slice(), 0, b.len() - 4)
    } else {
        slice_to_vec(b.as_slice(), 0, b.len())
    };
    assert(b@.subrange(0, b@.len() as int) =~= b@);
    push_str(&mut twin, ".safetensors");
    let ghost paths = entry_paths(all@);
    assert(twin@ == safetensors_twin(bin_file@));
    let mut i: usize = 0;
    while i < all.len()
        invariant
            i <= all.len(),
            paths == entry_paths(all@),
            twin@ == safetensors_twin(bin_file@),
            forall|k: int| 0 <= k < i ==> paths[k] != twin@,
        decreases all.len() - i,
    {
        let p = str_chars(all[i].path.as_str());
        if chars_eq(p.as_slice(), twin.as_slice()) {
            assert(paths[i as int] == twin@);
            return true;
        }
        i = i + 1;
    }
    assert(!paths.contains(twin@)) by {
        if paths.contains(twin@) {
            let k = choose|k: int| 0 <= k < paths.len() && paths[k] == twin@;
            assert(k < i);
        }
    }
    false
}

/// A weight file to fetch, given the extension of its path: a weight
/// extension, not an adapter, and not a `.bin` file shadowed by its
/// `.safetensors` sibling.
pub open spec fn is_weight_file_given(
    path: Seq<char>,
    ext: Option<Seq<char>>,
    paths: Seq<Seq<char>>,
) -> bool {
    &&& weight_ext_given(ext)
    &&& !contains_seq(path, "adapter"@)
    &&& !(ext == Some("bin"@) && has_twin_spec(paths, path))
}

/// A weight file to fetch: a weight extension, not an adapter, and not a
/// `.bin` file shadowed by its `.safetensors` sibling.
pub open spec fn is_weight_file_spec(path: Seq<char>, paths: Seq<Seq<char>>) -> bool {
    is_weight_file_given(path, path_extension_of(path), paths)
}

/// Whether `path` is a weight file to fetch, given the whole listing.
pub fn is_weight_file(path: &str, all: &[FileEntry]) -> (r: bool)
    ensures
        r == is_weight_file_spec(path@, entry_paths(all@)),
        plain_path(path@) ==> r == is_weight_file_given(
            path@,
            plain_path_extension(path@),
            entry_paths(all@),
        ),
{
    let e = path_extension(path);
    match &e {
        Some(x) => is_weight_file_with_extension(path, Some(x.as_str()), all),
        None => is_weight_file_with_extension(path, None, all),
    }
}

/// Whether `path`, whose extension is `extension`, is a weight file to
/// fetch, given the whole listing.
pub fn is_weight_file_with_extension(path: &str, extension: Option<&str>, all: &[FileEntry]) -> (r:
    bool)
    ensures
        r == is_weight_file_given(path@, opt_str_view(extension), entry_paths(all@)),
{
    if !is_weight_extension_str(extension) {
        return false;
    }
    let p = str_chars(path);
    let adapter = str_chars("adapter");
    if contains_chars(p.as_slice(), adapter.as_slice()) {
        return false;
    }
    let is_bin = match extension {
        Some(e) => {
            let ev = str_chars(e);
            let bin = str_chars("bin");
            chars_eq(ev.as_slice(), bin.as_slice())
        },
        None => false,
    };
    if is_bin && has_safetensors_twin(all, path) {
        return false;
    }
    true
}

/// `name` shortened for a progress-bar prefix: names longer than 28 bytes
/// keep their last 25 bytes behind `...`.
pub open spec fn truncated_display(name: &str, r: Seq<char>) -> bool {
    let bytes = name.spec_bytes();
    if bytes.len() > 28 {
        exists|tail: Seq<char>|
            r == "..."@ + tail && vstd::utf8::encode_utf8(tail) == bytes.subrange(
                bytes.len() - 25,
                bytes.len() as int,
            )
    } else {
        r == name@
    }
}

/// Shortens a file name for display. The cut, 25 bytes from the end, must
/// fall on a character boundary.
pub fn truncate_for_display(name: &str) -> (r: String)
    requires
        name.spec_bytes().len() <= usize::MAX,
        name.spec_bytes().len() > 28 ==> vstd::utf8::is_char_boundary(
            name.spec_bytes(),
            name.spec_bytes().len() - 25,
        ),
    ensures
        truncated_display(name, r@),
{
    let len = name.len();
    if len > 28 {
        let (_, tail) = name.split_at(len - 25);
        let mut out: Vec<char> = Vec::new();
        push_str(&mut out, "...");
        push_str(&mut out, tail);
        let r = string_from_chars(out.as_slice());
        assert(r@ == "..."@ + tail@);
        r
    } else {
        name.to_owned()
    }
}

/// A listing entry kept for download: not a directory, and named.
pub open spec fn keep_listed_entry(f: FileEntry) -> bool {
    f.file_type@ != "tree"@ && f.path@.len() > 0
}

/// The entries of a listing that are kept, in order.
pub open spec fn kept_entries(files: Seq<FileEntry>) -> Seq<FileEntry>
    decreases files.len(),
{
    if files.len() == 0 {
        Seq::empty()
    } else {
        let rest = kept_entries(files.drop_last());
        if keep_listed_entry(files.last()) {
            rest.push(files.last())
        } else {
            rest
        }
    }
}

/// The downloadable files of a listing: the listing must carry business
/// code 200; directory entries and unnamed entries are dropped.
pub fn select_repo_files(response: RepoFilesResponse) -> (r: Result<
    Vec<FileEntry>,
    ModelScopeError,
>)
    ensures
        response.code != 200 ==> r == Err::<Vec<FileEntry>, ModelScopeError>(
            ModelScopeError::ListingCode(response.code),
        ),
        response.code == 200 ==> (r matches Ok(v) && v@ == kept_entries(response.files@)),
{
    if response.code != 200 {
        return Err(ModelScopeError::ListingCode(response.code));
    }
    let mut files = response.files;
    let ghost all = files@;
    let tree = str_chars("tree");
    let mut kept_rev: Vec<FileEntry> = Vec::new();
    // Walk the listing from the back so that entries move out without copies.
    let mut kept: Vec<FileEntry> = Vec::new();
    let mut n = files.len();
    assert(all.subrange(0, n as int) =~= all);
    assert(kept_rev@.reverse() =~= Seq::<FileEntry>::empty());
    while n > 0
        invariant
            n == files@.len(),
            files@ == all.subrange(0, n as int),
            n <= all.len(),
            tree@ == "tree"@,
            kept_entries(all) == kept_entries(all.subrange(0, n as int)) + kept_rev@.reverse(),
        decreases n,
    {
        let f = files.pop().unwrap();
        let ghost prefix = all.subrange(0, n as int);
        assert(prefix.drop_last() =~= all.subrange(0, n - 1));
        assert(f == prefix.last());
        n = n - 1;
        let ft = str_chars(f.file_type.as_str());
        let keep = !chars_eq(ft.as_slice(), tree.as_slice()) && !f.path.as_str().is_empty();
        assert(keep == keep_listed_entry(f));
        if keep {
            let ghost old_rev = kept_rev@;
            kept_rev.push(f);
            assert(kept_rev@.reverse() =~= seq![kept_rev@.last()] + old_rev.reverse());
        }
    }
    assert(all.subrange(0, 0) =~= Seq::<FileEntry>::empty());
    let mut k = kept_rev.len();
    let ghost rev = kept_rev@;
    while k > 0
        invariant
            k == kept_rev@.len(),
            kept_rev@ == rev.subrange(0, k as int),
            k <= rev.len(),
            kept@ == rev.subrange(k as int, rev.len() as int).reverse(),
        decreases k,
    {
        let f = kept_rev.pop().unwrap();
        kept.push(f);
        k = k - 1;
        assert(kept@ =~= rev.subrange(k as int, rev.len() as int).reverse());
    }
    assert(rev.subrange(0, rev.len() as int) =~= rev);
    Ok(kept)
}

/// The cache directory of a model, as path components: under
/// `MODELSCOPE_CACHE` when it is set, else under
/// `$HOME/.cache/modelscope/hub/models`; then `{org}/{name}`.
pub open spec fn cache_dir_spec(
    modelscope_cache: Option<Seq<char>>,
    home: Option<Seq<char>>,
    org: Seq<char>,
    name: Seq<char>,
) -> Option<Seq<Seq<char>>> {
    match modelscope_cache {
        Some(root) => Some(seq![root, org, name]),
        None => match home {
            Some(h) => Some(
                seq![h, ".cache"@, "modelscope"@, "hub"@, "models"@, org, name],
            ),
            None => None,
        },
    }
}

/// The components of the cache directory of `org/name`, given the values
/// of `MODELSCOPE_CACHE` and `HOME`.
pub fn cache_dir_for(
    modelscope_cache: Option<&str>,
    home: Option<&str>,
    org: &str,
    name: &str,
) -> (r: Result<Vec<String>, ModelScopeError>)
    ensures
        match cache_dir_spec(
            match modelscope_cache {
                Some(c) => Some(c@),
                None => None,
            },
            match home {
                Some(h) => Some(h@),
                None => None,
            },
            org@,
            name@,
        ) {
            Some(parts) => r matches Ok(v) && v@.map_values(|s: String| s@) == parts,
            None => r == Err::<Vec<String>, ModelScopeError>(ModelScopeError::HomeNotSet),
        },
{
    let mut parts: Vec<String> = Vec::new();
    match modelscope_cache {
        Some(root) => {
            parts.push(root.to_owned());
        },
        None => match home {
            Some(h) => {
                parts.push(h.to_owned());
                parts.push(".cache".to_owned());
                parts.push("modelscope".to_owned());
                parts.push("hub".to_owned());
                parts.push("models".to_owned());
            },
            None => {
                return Err(ModelScopeError::HomeNotSet);
            },
        },
    }
    parts.push(org.to_owned());
    parts.push(name.to_owned());
    assert(parts@.map_values(|s: String| s@) =~= cache_dir_spec(
        match modelscope_cache {
            Some(c) => Some(c@),
            None => None,
        },
        match home {
            Some(h) => Some(h@),
            None => None,
        },
        org@,
        name@,
    ).unwrap());
    Ok(parts)
}

/// Host of the ModelScope service.
pub open spec fn modelscope_base() -> Seq<char> {
    "https://www.modelscope.cn"@
}

/// Revision files are listed and fetched at.
pub open spec fn default_revision() -> Seq<char> {
    "master"@
}

/// `{base}/api/v1/models/{org}/{name}/repo/files?Revision={revision}&Root=`
pub open spec fn listing_url_spec(org: Seq<char>, name: Seq<char>) -> Seq<char> {
    modelscope_base() + "/api/v1/models/"@ + org + "/"@ + name + "/repo/files?Revision="@
        + default_revision() + "&Root="@
}

/// `{base}/models/{org}/{name}/resolve/{revision}/{path}`
pub open spec fn resolve_url_spec(org: Seq<char>, name: Seq<char>, path: Seq<char>) -> Seq<char> {
    modelscope_base() + "/models/"@ + org + "/"@ + name + "/resolve/"@ + default_revision()
        + "/"@ + path
}

/// The file-listing URL of a repository.
pub fn listing_url(org: &str, name: &str) -> (r: String)
    ensures
        r@ == listing_url_spec(org@, name@),
{
    let mut out: Vec<char> = Vec::new();
    push_str(&mut out, "https://www.modelscope.cn");
    push_str(&mut out, "/api/v1/models/");
    push_str(&mut out, org);
    push_str(&mut out, "/");
    push_str(&mut out, name);
    push_str(&mut out, "/repo/files?Revision=");
    push_str(&mut out, "master");
    push_str(&mut out, "&Root=");
    let r = string_from_chars(out.as_slice());
    assert(r@ =~= listing_url_spec(org@, name@));
    r
}

/// The download URL of one file of a repository.
pub fn resolve_url(org: &str, name: &str, path: &str) -> (r: String)
    ensures
        r@ == resolve_url_spec(org@, name@, path@),
{
    let mut out: Vec<char> = Vec::new();
    push_str(&mut out, "https://www.modelscope.cn");
    push_str(&mut out, "/models/");
    push_str(&mut out, org);
    push_str(&mut out, "/");
    push_str(&mut out, name);
    push_str(&mut out, "/resolve/");
    push_str(&mut out, "master");
    push_str(&mut out, "/");
    push_str(&mut out, path);
    let r = string_from_chars(out.as_slice());
    assert(r@ =~= resolve_url_spec(org@, name@, path@));
    r
}

/// The extension given to a file while it downloads: its own extension
/// (`dl` when it has none) followed by `.partial`.
pub fn partial_extension(extension: Option<&str>) -> (r: String)
    ensures
        r@ == match extension {
            Some(e) => e@,
            None => "dl"@,
        } + ".partial"@,
{
    let mut out: Vec<char> = Vec::new();
    match extension {
        Some(e) => push_str(&mut out, e),
        None => push_str(&mut out, "dl"),
    }
    push_str(&mut out, ".partial");
    string_from_chars(out.as_slice())
}

/// A file already on disk counts as downloaded when the listing gives it a
/// size, a regular file is there, and its length is that size.
pub fn is_cache_hit(listed_size: u64, is_file: bool, on_disk_len: u64) -> (r: bool)
    ensures
        r == (listed_size > 0 && is_file && on_disk_len == listed_size),
{
    listed_size > 0 && is_file && on_disk_len == listed_size
}

/// Files fetched before the weights when the repository has them, in this
/// order; the first three are the mandatory configuration and tokenizer
/// files.
pub open spec fn fixed_file_names() -> Seq<Seq<char>> {
    seq![
        "config.json"@,
        "tokenizer.json"@,
        "tokenizer_config.json"@,
        "special_tokens_map.json"@,
        "generation_config.json"@,
        "vocab.json"@,
        "merges.txt"@,
        "configuration.json"@,
        "model.safetensors.index.json"@,
    ]
}

/// How many of the fixed names are mandatory.
pub open spec fn mandatory_file_count() -> int {
    3
}

fn fixed_name_list() -> (r: Vec<Vec<char>>)
    ensures
        r@.len() == fixed_file_names().len(),
        forall|m: int| 0 <= m < r@.len() ==> (#[trigger] r@[m])@ == fixed_file_names()[m],
{
    let mut r: Vec<Vec<char>> = Vec::new();
    r.push(str_chars("config.json"));
    r.push(str_chars("tokenizer.json"));
    r.push(str_chars("tokenizer_config.json"));
    r.push(str_chars("special_tokens_map.json"));
    r.push(str_chars("generation_config.json"));
    r.push(str_chars("vocab.json"));
    r.push(str_chars("merges.txt"));
    r.push(str_chars("configuration.json"));
    r.push(str_chars("model.safetensors.index.json"));
    r
}

/// The first position at or after `i` whose path is `name`.
pub open spec fn first_index_from(paths: Seq<Seq<char>>, name: Seq<char>, i: int) -> Option<int>
    decreases paths.len() - i,
{
    if i < 0 || i >= paths.len() {
        None
    } else if paths[i] == name {
        Some(i)
    } else {
        first_index_from(paths, name, i + 1)
    }
}

/// The first entry of each of `names`, in the order of `names`, skipping
/// names the listing lacks.
pub open spec fn fixed_plan(paths: Seq<Seq<char>>, names: Seq<Seq<char>>) -> Seq<usize>
    decreases names.len(),
{
    if names.len() == 0 {
        Seq::empty()
    } else {
        let rest = fixed_plan(paths, names.drop_last());
        match first_index_from(paths, names.last(), 0) {
            Some(i) => rest.push(i as usize),
            None => rest,
        }
    }
}

/// Some entry of `fixed` has path `p`.
pub open spec fn in_fixed(paths: Seq<Seq<char>>, fixed: Seq<usize>, p: Seq<char>) -> bool {
    exists|m: int| 0 <= m < fixed.len() && paths[fixed[m] as int] == p
}

/// Entry `i` is a weight file of the listing.
#[verifier::opaque]
pub open spec fn is_weight_at(paths: Seq<Seq<char>>, i: int) -> bool {
    is_weight_file_spec(paths[i], paths)
}

/// `ws` lists, in increasing path order, one entry per distinct weight path
/// among the first `upto` entries that is not already fetched as a fixed
/// file: the first entry with that path.
pub open spec fn weight_plan_ok(
    paths: Seq<Seq<char>>,
    fixed: Seq<usize>,
    ws: Seq<usize>,
    upto: int,
) -> bool {
    &&& forall|a: int, b: int|
        #![trigger ws[a], ws[b]]
        0 <= a < b < ws.len() ==> lex_lt(paths[ws[a] as int], paths[ws[b] as int])
    &&& forall|k: int|
        #![trigger ws[k]]
        0 <= k < ws.len() ==> {
            &&& ws[k] < upto
            &&& is_weight_at(paths, ws[k] as int)
            &&& !in_fixed(paths, fixed, paths[ws[k] as int])
            &&& forall|j: int|
                #![trigger paths[j]]
                0 <= j < ws[k] && is_weight_at(paths, j) ==> paths[j] != paths[ws[k] as int]
        }
    &&& forall|j: int|
        #![trigger is_weight_at(paths, j)]
        0 <= j < upto && is_weight_at(paths, j) && !in_fixed(paths, fixed, paths[j]) ==> exists|
            k: int,
        |
            #![trigger ws[k]]
            0 <= k < ws.len() && paths[ws[k] as int] == paths[j]
}

/// Some entry among the listing is a weight file.
pub open spec fn has_weight_entry(paths: Seq<Seq<char>>) -> bool {
    exists|i: int| 0 <= i < paths.len() && #[trigger] is_weight_at(paths, i)
}

/// Some mandatory file is listed.
pub open spec fn has_mandatory_entry(paths: Seq<Seq<char>>) -> bool {
    exists|i: int, m: int|
        0 <= i < paths.len() && 0 <= m < mandatory_file_count() && #[trigger] paths[i]
            == #[trigger] fixed_file_names()[m]
}

/// `plan` lists the fixed files the listing has, in the order of
/// `fixed_file_names`, followed by the remaining weight files in path order.
pub open spec fn download_plan_ok(paths: Seq<Seq<char>>, plan: Seq<usize>) -> bool {
    let fixed = fixed_plan(paths, fixed_file_names());
    &&& fixed.len() <= plan.len()
    &&& plan.subrange(0, fixed.len() as int) == fixed
    &&& weight_plan_ok(
        paths,
        fixed,
        plan.subrange(fixed.len() as int, plan.len() as int),
        paths.len() as int,
    )
}

/// The order in which the files of a listing are fetched, as positions in
/// the listing: the fixed configuration files first, then the weight files
/// by path. An empty listing, a listing without weight files and a listing
/// without any mandatory file are refused, in that order.
pub fn plan_downloads(files: &[FileEntry]) -> (r: Result<Vec<usize>, ModelScopeError>)
    ensures
        ({
            let paths = entry_paths(files@);
            let fixed = fixed_plan(paths, fixed_file_names());
            if files@.len() == 0 {
                r == Err::<Vec<usize>, ModelScopeError>(ModelScopeError::EmptyFileList)
            } else if !has_weight_entry(paths) {
                r == Err::<Vec<usize>, ModelScopeError>(ModelScopeError::NoWeightFiles)
            } else if !has_mandatory_entry(paths) {
                r == Err::<Vec<usize>, ModelScopeError>(ModelScopeError::MissingMandatoryFiles)
            } else {
                r matches Ok(plan) && download_plan_ok(paths, plan@)
            }
        }),
{
    let ghost paths = entry_paths(files@);
    if files.len() == 0 {
        return Err(ModelScopeError::EmptyFileList);
    }
    let n = files.len();
    let mut path_chars: Vec<Vec<char>> = Vec::new();
    let mut weight: Vec<bool> = Vec::new();
    let mut i: usize = 0;
    while i < n
        invariant
            n == files@.len(),
            paths == entry_paths(files@),
            i <= n,
            path_chars@.len() == i,
            weight@.len() == i,
            forall|k: int| 0 <= k < i ==> (#[trigger] path_chars@[k])@ == paths[k],
            forall|k: int| 0 <= k < i ==> #[trigger] weight@[k] == is_weight_at(paths, k),
        decreases n - i,
    {
        path_chars.push(str_chars(files[i].path.as_str()));
        weight.push(is_weight_file(files[i].path.as_str(), files));
        proof {
            reveal(is_weight_at);
            assert(files@[i as int].path@ == paths[i as int]);
        }
        i = i + 1;
    }
    assert(path_chars@.map_values(|p: Vec<char>| p@) =~= paths);
    // The fixed files, each at its first listing position.
    let names = fixed_name_list();
    let mut planned: Vec<usize> = Vec::new();
    let mut m: usize = 0;
    while m < names.len()
        invariant
            n == files@.len(),
            paths == entry_paths(files@),
            path_chars@.len() == n,
            forall|k: int| 0 <= k < n ==> (#[trigger] path_chars@[k])@ == paths[k],
            path_chars@.map_values(|p: Vec<char>| p@) == paths,
            names@.len() == fixed_file_names().len(),
            forall|q: int| 0 <= q < names@.len() ==> (#[trigger] names@[q])@ == fixed_file_names()[q],
            m <= names.len(),
            planned@ == fixed_plan(paths, fixed_file_names().subrange(0, m as int)),
        decreases names.len() - m,
    {
        let found = first_path_index(path_chars.as_slice(), names[m].as_slice());
        let ghost sub = fixed_file_names().subrange(0, m + 1);
        assert(sub.drop_last() =~= fixed_file_names().subrange(0, m as int));
        assert(sub.last() == names@[m as int]@);
        match found {
            Some(k) => planned.push(k),
            None => {},
        }
        m = m + 1;
    }
    assert(fixed_file_names().subrange(0, fixed_file_names().len() as int) =~= fixed_file_names());
    let ghost fixed = planned@;
    proof {
        lemma_fixed_plan_in_range(paths, fixed_file_names());
    }
    // The weight files, ordered by path, one per path.
    let mut ws: Vec<usize> = Vec::new();
    let mut any_weight = false;
    let mut i: usize = 0;
    while i < n
        invariant
            n == files@.len(),
            paths == entry_paths(files@),
            paths.len() == n,
            path_chars@.len() == n,
            forall|k: int| 0 <= k < n ==> (#[trigger] path_chars@[k])@ == paths[k],
            path_chars@.map_values(|p: Vec<char>| p@) == paths,
            weight@.len() == n,
            forall|k: int| 0 <= k < n ==> #[trigger] weight@[k] == is_weight_at(paths, k),
            planned@ == fixed,
            forall|q: int| 0 <= q < fixed.len() ==> #[trigger] fixed[q] < n,
            i <= n,
            any_weight == exists|k: int| 0 <= k < i && #[trigger] is_weight_at(paths, k),
            forall|k: int| 0 <= k < ws@.len() ==> #[trigger] ws@[k] < i,
            weight_plan_ok(paths, fixed, ws@, i as int),
        decreases n - i,
    {
        if weight[i] {
            any_weight = true;
            let fixed_dup = path_in_plan(path_chars.as_slice(), planned.as_slice(), i);
            if !fixed_dup {
                insert_weight(path_chars.as_slice(), &mut ws, i, Ghost(fixed));
            } else {
                proof {
                    lemma_weight_plan_skip(paths, fixed, ws@, i as int);
                }
            }
        } else {
            proof {
                lemma_weight_plan_skip(paths, fixed, ws@, i as int);
            }
        }
        i = i + 1;
    }
    if !any_weight {
        return Err(ModelScopeError::NoWeightFiles);
    }
    let mut mandatory_present = false;
    let mut q: usize = 0;
    while q < 3
        invariant
            n == files@.len(),
            paths == entry_paths(files@),
            path_chars@.len() == n,
            forall|k: int| 0 <= k < n ==> (#[trigger] path_chars@[k])@ == paths[k],
            path_chars@.map_values(|p: Vec<char>| p@) == paths,
            names@.len() == fixed_file_names().len(),
            forall|t: int| 0 <= t < names@.len() ==> (#[trigger] names@[t])@ == fixed_file_names()[t],
            q <= 3,
            mandatory_present == exists|k: int, t: int|
                0 <= k < n && 0 <= t < q && #[trigger] paths[k] == #[trigger] fixed_file_names()[t],
        decreases 3 - q,
    {
        let found = first_path_index(path_chars.as_slice(), names[q].as_slice());
        proof {
            lemma_first_index_found(paths, fixed_file_names()[q as int], 0);
            if mandatory_present {
                let (k, t) = choose|k: int, t: int|
                    0 <= k < n && 0 <= t < q && #[trigger] paths[k] == #[trigger] fixed_file_names()[t];
                assert(0 <= k < n && 0 <= t < q + 1 && paths[k] == fixed_file_names()[t]);
            }
        }
        match found {
            Some(k) => {
                assert(paths[k as int] == fixed_file_names()[q as int]);
                mandatory_present = true;
            },
            None => {
                assert forall|k: int, t: int|
                    0 <= k < n && 0 <= t < q + 1 && #[trigger] paths[k] == #[trigger] fixed_file_names()[t] implies t < q by {
                    if t == q {
                        assert(paths[k] == fixed_file_names()[q as int]);
                    }
                }
            },
        }
        q = q + 1;
    }
    if !mandatory_present {
        return Err(ModelScopeError::MissingMandatoryFiles);
    }
    let ghost wsv = ws@;
    planned.append(&mut ws);
    assert(planned@.subrange(0, fixed.len() as int) =~= fixed);
    assert(planned@.subrange(fixed.len() as int, planned@.len() as int) =~= wsv);
    Ok(planned)
}

/// If `first_index_from` finds nothing from `i`, no later path is `name`;
/// if it finds `k`, that path is `name`.
proof fn lemma_first_index_found(paths: Seq<Seq<char>>, name: Seq<char>, i: int)
    requires
        0 <= i,
    ensures
        match first_index_from(paths, name, i) {
            Some(k) => i <= k < paths.len() && paths[k] == name && forall|j: int|
                i <= j < k ==> paths[j] != name,
            None => forall|j: int| i <= j < paths.len() ==> paths[j] != name,
        },
    decreases paths.len() - i,
{
    if i < paths.len() && paths[i] != name {
        lemma_first_index_found(paths, name, i + 1);
    }
}

/// Every position of `fixed_plan` is a position of the listing.
proof fn lemma_fixed_plan_in_range(paths: Seq<Seq<char>>, names: Seq<Seq<char>>)
    ensures
        forall|q: int|
            0 <= q < fixed_plan(paths, names).len() ==> #[trigger] fixed_plan(paths, names)[q]
                < paths.len(),
    decreases names.len(),
{
    if names.len() > 0 {
        lemma_fixed_plan_in_range(paths, names.drop_last());
        lemma_first_index_found(paths, names.last(), 0);
        let rest = fixed_plan(paths, names.drop_last());
        match first_index_from(paths, names.last(), 0) {
            Some(k) => {
                assert forall|q: int| 0 <= q < fixed_plan(paths, names).len() implies #[trigger] fixed_plan(paths, names)[q] < paths.len() by {
                    if q < rest.len() {
                        assert(fixed_plan(paths, names)[q] == rest[q]);
                    }
                }
            },
            None => {},
        }
    }
}

/// Extending the scanned prefix by an entry that is not a weight file, or
/// whose path is already fetched as a fixed file, keeps the weight plan.
proof fn lemma_weight_plan_skip(paths: Seq<Seq<char>>, fixed: Seq<usize>, ws: Seq<usize>, i: int)
    requires
        weight_plan_ok(paths, fixed, ws, i),
        !is_weight_at(paths, i) || in_fixed(paths, fixed, paths[i]),
    ensures
        weight_plan_ok(paths, fixed, ws, i + 1),
{
    assert forall|j: int|
        #![trigger is_weight_at(paths, j)]
        0 <= j < i + 1 && is_weight_at(paths, j) && !in_fixed(paths, fixed, paths[j]) implies exists|
            k: int,
        |
            #![trigger ws[k]]
            0 <= k < ws.len() && paths[ws[k] as int] == paths[j] by {
        assert(j < i);
    }
}

/// The first listing position whose path is `name`.
fn first_path_index(paths: &[Vec<char>], name: &[char]) -> (r: Option<usize>)
    ensures
        r == match first_index_from(paths@.map_values(|p: Vec<char>| p@), name@, 0) {
            Some(k) => Some(k as usize),
            None => None::<usize>,
        },
        r matches Some(k) ==> k < paths@.len(),
{
    let ghost pv = paths@.map_values(|p: Vec<char>| p@);
    let mut j: usize = 0;
    while j < paths.len()
        invariant
            j <= paths@.len(),
            pv == paths@.map_values(|p: Vec<char>| p@),
            first_index_from(pv, name@, 0) == first_index_from(pv, name@, j as int),
        decreases paths.len() - j,
    {
        if chars_eq(paths[j].as_slice(), name) {
            return Some(j);
        }
        j = j + 1;
    }
    None
}

/// Whether the path of entry `i` is the path of an entry of `plan`.
fn path_in_plan(paths: &[Vec<char>], plan: &[usize], i: usize) -> (r: bool)
    requires
        i < paths@.len(),
        forall|q: int| 0 <= q < plan@.len() ==> #[trigger] plan@[q] < paths@.len(),
    ensures
        r == in_fixed(paths@.map_values(|p: Vec<char>| p@), plan@, paths@[i as int]@),
{
    let ghost pv = paths@.map_values(|p: Vec<char>| p@);
    let mut q: usize = 0;
    while q < plan.len()
        invariant
            q <= plan@.len(),
            i < paths@.len(),
            pv == paths@.map_values(|p: Vec<char>| p@),
            forall|t: int| 0 <= t < plan@.len() ==> #[trigger] plan@[t] < paths@.len(),
            forall|t: int| 0 <= t < q ==> pv[plan@[t] as int] != pv[i as int],
        decreases plan.len() - q,
    {
        if chars_eq(paths[plan[q]].as_slice(), paths[i].as_slice()) {
            assert(pv[plan@[q as int] as int] == pv[i as int]);
            return true;
        }
        q = q + 1;
    }
    false
}

/// Inserts weight entry `i` into the path-ordered `ws` unless an entry with
/// the same path is already there.
fn insert_weight(paths: &[Vec<char>], ws: &mut Vec<usize>, i: usize, Ghost(fixed): Ghost<Seq<usize>>)
    requires
        i < paths@.len(),
        is_weight_at(paths@.map_values(|p: Vec<char>| p@), i as int),
        !in_fixed(paths@.map_values(|p: Vec<char>| p@), fixed, paths@[i as int]@),
        forall|k: int| 0 <= k < old(ws)@.len() ==> #[trigger] old(ws)@[k] < i,
        weight_plan_ok(paths@.map_values(|p: Vec<char>| p@), fixed, old(ws)@, i as int),
    ensures
        forall|k: int| 0 <= k < final(ws)@.len() ==> #[trigger] final(ws)@[k] < i + 1,
        weight_plan_ok(paths@.map_values(|p: Vec<char>| p@), fixed, final(ws)@, i + 1),
        exists|k: int|
            #![trigger final(ws)@[k]]
            0 <= k < final(ws)@.len() && paths@[final(ws)@[k] as int]@ == paths@[i as int]@,
        forall|j: int|
            #![trigger old(ws)@[j]]
            0 <= j < old(ws)@.len() ==> exists|k: int|
                #![trigger final(ws)@[k]]
                0 <= k < final(ws)@.len() && final(ws)@[k] == old(ws)@[j],
{
    let ghost pv = paths@.map_values(|p: Vec<char>| p@);
    let ghost old_ws = ws@;
    let mut p: usize = 0;
    while p < ws.len() && chars_lt(paths[ws[p]].as_slice(), paths[i].as_slice())
        invariant
            ws@ == old_ws,
            pv == paths@.map_values(|p: Vec<char>| p@),
            i < paths@.len(),
            forall|k: int| 0 <= k < ws@.len() ==> #[trigger] ws@[k] < i,
            p <= ws@.len(),
            forall|q: int| 0 <= q < p ==> lex_lt(pv[ws@[q] as int], pv[i as int]),
        decreases ws.len() - p,
    {
        p = p + 1;
    }
    if p < ws.len() && chars_eq(paths[ws[p]].as_slice(), paths[i].as_slice()) {
        assert(pv[ws@[p as int] as int] == pv[i as int]);
        assert forall|j: int| #![trigger old_ws[j]] 0 <= j < old_ws.len() implies exists|k: int|
            #![trigger ws@[k]]
            0 <= k < ws@.len() && ws@[k] == old_ws[j] by {
            assert(ws@[j] == old_ws[j]);
        }
        return ;
    }
    proof {
        // Nothing in `ws` has the path of entry `i`.
        assert forall|k: int| 0 <= k < old_ws.len() implies pv[old_ws[k] as int] != pv[i as int] by {
            if k < p {
                lemma_lex_trichotomy(pv[i as int], pv[i as int]);
            } else if pv[old_ws[k] as int] == pv[i as int] {
                if k > p {
                    lemma_lex_trichotomy(pv[old_ws[p as int] as int], pv[i as int]);
                    assert(lex_lt(pv[old_ws[p as int] as int], pv[old_ws[k] as int]));
                }
            }
        }
        if p < old_ws.len() {
            lemma_lex_trichotomy(pv[old_ws[p as int] as int], pv[i as int]);
        }
    }
    ws.insert(p, i);
    proof {
        let nw = ws@;
        old_ws.insert_ensures(p as int, i);
        assert(nw =~= old_ws.insert(p as int, i));
        // Order.
        assert forall|a: int, b: int| #![trigger nw[a], nw[b]] 0 <= a < b < nw.len() implies lex_lt(
            pv[nw[a] as int],
            pv[nw[b] as int],
        ) by {
            if b < p {
                assert(nw[a] == old_ws[a] && nw[b] == old_ws[b]);
            } else if b == p {
                assert(nw[a] == old_ws[a]);
            } else if a > p {
                assert(nw[a] == old_ws[a - 1] && nw[b] == old_ws[b - 1]);
            } else if a == p {
                assert(nw[b] == old_ws[b - 1]);
                if b - 1 > p {
                    assert(lex_lt(pv[old_ws[p as int] as int], pv[old_ws[b - 1] as int]));
                    lemma_lex_transitive(pv[i as int], pv[old_ws[p as int] as int], pv[old_ws[b - 1] as int]);
                }
            } else {
                assert(nw[a] == old_ws[a] && nw[b] == old_ws[b - 1]);
            }
        }
        // Membership facts.
        assert forall|k: int| #![trigger nw[k]] 0 <= k < nw.len() implies {
            &&& nw[k] < i + 1
            &&& nw[k] < i
            &&& is_weight_at(pv, nw[k] as int)
            &&& !in_fixed(pv, fixed, pv[nw[k] as int])
            &&& forall|j: int|
                #![trigger pv[j]]
                0 <= j < nw[k] && is_weight_at(pv, j) ==> pv[j] != pv[nw[k] as int]
        } || nw[k] == i by {
            if k < p {
                assert(nw[k] == old_ws[k]);
            } else if k > p {
                assert(nw[k] == old_ws[k - 1]);
            }
        }
        assert forall|k: int| #![trigger nw[k]] 0 <= k < nw.len() implies {
            &&& nw[k] < i + 1
            &&& is_weight_at(pv, nw[k] as int)
            &&& !in_fixed(pv, fixed, pv[nw[k] as int])
            &&& forall|j: int|
                #![trigger pv[j]]
                0 <= j < nw[k] && is_weight_at(pv, j) ==> pv[j] != pv[nw[k] as int]
        } by {
            if nw[k] == i {
                assert forall|j: int| #![trigger pv[j]] 0 <= j < i && is_weight_at(pv, j) implies pv[j] != pv[i as int] by {
                    if pv[j] == pv[i as int] {
                        assert(!in_fixed(pv, fixed, pv[j]));
                        let w = choose|w: int| #![trigger old_ws[w]] 0 <= w < old_ws.len() && pv[old_ws[w] as int] == pv[j];
                        assert(pv[old_ws[w] as int] != pv[i as int]);
                    }
                }
            }
        }
        assert forall|j: int| #![trigger is_weight_at(pv, j)]
            0 <= j < i && is_weight_at(pv, j) && !in_fixed(pv, fixed, pv[j]) implies exists|k: int|
            #![trigger nw[k]]
            0 <= k < nw.len() && pv[nw[k] as int] == pv[j] by {
            let w = choose|w: int| #![trigger old_ws[w]] 0 <= w < old_ws.len() && pv[old_ws[w] as int] == pv[j];
            if w < p {
                assert(nw[w] == old_ws[w]);
            } else {
                assert(nw[w + 1] == old_ws[w]);
            }
        }
        assert(pv[nw[p as int] as int] == paths@[i as int]@);
        assert forall|j: int| #![trigger old_ws[j]] 0 <= j < old_ws.len() implies exists|k: int|
            #![trigger nw[k]]
            0 <= k < nw.len() && nw[k] == old_ws[j] by {
            if j < p {
                assert(nw[j] == old_ws[j]);
            } else {
                assert(nw[j + 1] == old_ws[j]);
            }
        }
    }
}

/// The fixed file names are pairwise different.
proof fn lemma_fixed_names_distinct()
    ensures
        forall|i: int, j: int|
            0 <= i < j < fixed_file_names().len() ==> fixed_file_names()[i] != fixed_file_names()[j],
{
    reveal_strlit("config.json");
    reveal_strlit("tokenizer.json");
    reveal_strlit("tokenizer_config.json");
    reveal_strlit("special_tokens_map.json");
    reveal_strlit("generation_config.json");
    reveal_strlit("vocab.json");
    reveal_strlit("merges.txt");
    reveal_strlit("configuration.json");
    reveal_strlit("model.safetensors.index.json");
    let names = fixed_file_names();
    assert(names[0].len() == 11);
    assert(names[1].len() == 14);
    assert(names[2].len() == 21);
    assert(names[3].len() == 23);
    assert(names[4].len() == 22);
    assert(names[5].len() == 10);
    assert(names[6].len() == 10);
    assert(names[7].len() == 18);
    assert(names[8].len() == 28);
    assert(names[5][0] != names[6][0]);
    assert forall|i: int, j: int| 0 <= i < j < names.len() implies names[i] != names[j] by {
        if i == 0 && j == 1 {
            assert(names[0].len() != names[1].len());
        } else if i == 0 && j == 2 {
            assert(names[0].len() != names[2].len());
        } else if i == 0 && j == 3 {
            assert(names[0].len() != names[3].len());
        } else if i == 0 && j == 4 {
            assert(names[0].len() != names[4].len());
        } else if i == 0 && j == 5 {
            assert(names[0].len() != names[5].len());
        } else if i == 0 && j == 6 {
            assert(names[0].len() != names[6].len());
        } else if i == 0 && j == 7 {
            assert(names[0].len() != names[7].len());
        } else if i == 0 && j == 8 {
            assert(names[0].len() != names[8].len());
        } else if i == 1 && j == 2 {
            assert(names[1].len() != names[2].len());
        } else if i == 1 && j == 3 {
            assert(names[1].len() != names[3].len());
        } else if i == 1 && j == 4 {
            assert(names[1].len() != names[4].len());
        } else if i == 1 && j == 5 {
            assert(names[1].len() != names[5].len());
        } else if i == 1 && j == 6 {
            assert(names[1].len() != names[6].len());
        } else if i == 1 && j == 7 {
            assert(names[1].len() != names[7].len());
        } else if i == 1 && j == 8 {
            assert(names[1].len() != names[8].len());
        } else if i == 2 && j == 3 {
            assert(names[2].len() != names[3].len());
        } else if i == 2 && j == 4 {
            assert(names[2].len() != names[4].len());
        } else if i == 2 && j == 5 {
            assert(names[2].len() != names[5].len());
        } else if i == 2 && j == 6 {
            assert(names[2].len() != names[6].len());
        } else if i == 2 && j == 7 {
            assert(names[2].len() != names[7].len());
        } else if i == 2 && j == 8 {
            assert(names[2].len() != names[8].len());
        } else if i == 3 && j == 4 {
            assert(names[3].len() != names[4].len());
        } else if i == 3 && j == 5 {
            assert(names[3].len() != names[5].len());
        } else if i == 3 && j == 6 {
            assert(names[3].len() != names[6].len());
        } else if i == 3 && j == 7 {
            assert(names[3].len() != names[7].len());
        } else if i == 3 && j == 8 {
            assert(names[3].len() != names[8].len());
        } else if i == 4 && j == 5 {
            assert(names[4].len() != names[5].len());
        } else if i == 4 && j == 6 {
            assert(names[4].len() != names[6].len());
        } else if i == 4 && j == 7 {
            assert(names[4].len() != names[7].len());
        } else if i == 4 && j == 8 {
            assert(names[4].len() != names[8].len());
        } else if i == 5 && j == 6 {
            assert(names[5][0] != names[6][0]);
        } else if i == 5 && j == 7 {
            assert(names[5].len() != names[7].len());
        } else if i == 5 && j == 8 {
            assert(names[5].len() != names[8].len());
        } else if i == 6 && j == 7 {
            assert(names[6].len() != names[7].len());
        } else if i == 6 && j == 8 {
            assert(names[6].len() != names[8].len());
        } else if i == 7 && j == 8 {
            assert(names[7].len() != names[8].len());
        }
    }
}

/// Each entry of `fixed_plan` has one of the names, and entries taken for
/// different names have different paths.
proof fn lemma_fixed_plan_distinct(paths: Seq<Seq<char>>, names: Seq<Seq<char>>)
    requires
        paths.len() <= usize::MAX,
        forall|i: int, j: int| 0 <= i < j < names.len() ==> names[i] != names[j],
    ensures
        forall|q: int|
            0 <= q < fixed_plan(paths, names).len() ==> names.contains(
                paths[#[trigger] fixed_plan(paths, names)[q] as int],
            ),
        forall|a: int, b: int|
            0 <= a < b < fixed_plan(paths, names).len() ==> paths[fixed_plan(paths, names)[a] as int]
                != paths[fixed_plan(paths, names)[b] as int],
    decreases names.len(),
{
    if names.len() > 0 {
        let init = names.drop_last();
        lemma_fixed_plan_distinct(paths, init);
        lemma_first_index_found(paths, names.last(), 0);
        let rest = fixed_plan(paths, init);
        let fp = fixed_plan(paths, names);
        assert forall|q: int| 0 <= q < rest.len() implies names.contains(paths[#[trigger] rest[q] as int]) by {
            assert(init.contains(paths[rest[q] as int]));
            let w = choose|j: int| 0 <= j < init.len() && init[j] == paths[rest[q] as int];
            assert(names[w] == init[w]);
        }
        match first_index_from(paths, names.last(), 0) {
            Some(k) => {
                assert(fp == rest.push(k as usize));
                assert(names[names.len() - 1] == names.last());
                assert forall|q: int| 0 <= q < fp.len() implies names.contains(paths[#[trigger] fp[q] as int]) by {
                    if q < rest.len() {
                        assert(fp[q] == rest[q]);
                        assert(names.contains(paths[rest[q] as int]));
                    } else {
                        assert(fp[q] == k as usize);
                        assert(paths[k] == names[names.len() - 1]);
                    }
                }
                assert forall|a: int, b: int| 0 <= a < b < fp.len() implies paths[fp[a] as int] != paths[fp[b] as int] by {
                    assert(fp[a] == rest[a]);
                    if b < rest.len() {
                        assert(fp[b] == rest[b]);
                    } else {
                        assert(fp[b] == k as usize);
                        assert(init.contains(paths[rest[a] as int]));
                        let w = choose|j: int| 0 <= j < init.len() && init[j] == paths[rest[a] as int];
                        assert(names[w] == init[w]);
                        assert(w < names.len() - 1);
                    }
                }
            },
            None => {},
        }
    }
}

/// Every file of a download plan is fetched once: the planned entries have
/// pairwise different paths.
pub proof fn lemma_plan_fetches_each_path_once(files: Seq<FileEntry>, plan: Seq<usize>)
    requires
        files.len() <= usize::MAX,
        download_plan_ok(entry_paths(files), plan),
    ensures
        forall|k: int| 0 <= k < plan.len() ==> #[trigger] plan[k] < files.len(),
        forall|a: int, b: int|
            0 <= a < b < plan.len() ==> entry_paths(files)[plan[a] as int] != entry_paths(files)[plan[b] as int],
{
    let paths = entry_paths(files);
    let names = fixed_file_names();
    let fixed = fixed_plan(paths, names);
    let ws = plan.subrange(fixed.len() as int, plan.len() as int);
    lemma_fixed_names_distinct();
    lemma_fixed_plan_distinct(paths, names);
    lemma_fixed_plan_in_range(paths, names);
    assert forall|k: int| 0 <= k < plan.len() implies #[trigger] plan[k] < files.len() by {
        if k < fixed.len() {
            assert(plan[k] == fixed[k]);
        } else {
            assert(plan[k] == ws[k - fixed.len()]);
        }
    }
    assert forall|a: int, b: int| 0 <= a < b < plan.len() implies paths[plan[a] as int] != paths[plan[b] as int] by {
        if b < fixed.len() {
            assert(plan[a] == fixed[a]);
            assert(plan[b] == fixed[b]);
        } else if a < fixed.len() {
            let kb = b - fixed.len();
            assert(plan[a] == fixed[a]);
            assert(plan[b] == ws[kb]);
            assert(!in_fixed(paths, fixed, paths[ws[kb] as int]));
        } else {
            let ka = a - fixed.len();
            let kb = b - fixed.len();
            assert(plan[a] == ws[ka]);
            assert(plan[b] == ws[kb]);
            assert(lex_lt(paths[ws[ka] as int], paths[ws[kb] as int]));
            lemma_lex_trichotomy(paths[ws[ka] as int], paths[ws[ka] as int]);
        }
    }
}

/// A weight file to fetch always carries a weight extension and never
/// names an adapter.
pub proof fn lemma_weight_files_have_weight_ext(path: Seq<char>, paths: Seq<Seq<char>>)
    requires
        is_weight_file_spec(path, paths),
    ensures
        has_weight_ext_spec(path),
        !contains_seq(path, "adapter"@),
{
}

/// A `.bin` file is never fetched as a weight when the listing also holds
/// its `.safetensors` sibling.
pub proof fn lemma_safetensors_twin_wins(path: Seq<char>, paths: Seq<Seq<char>>)
    requires
        path_extension_of(path) == Some("bin"@),
        paths.contains(safetensors_twin(path)),
    ensures
        !is_weight_file_spec(path, paths),
{
}

/// A model id splits in at most one way into `<org>/<name>`.
pub proof fn lemma_model_id_split_unique(
    model_id: Seq<char>,
    org1: Seq<char>,
    name1: Seq<char>,
    org2: Seq<char>,
    name2: Seq<char>,
)
    requires
        is_model_id_split(model_id, org1, name1),
        is_model_id_split(model_id, org2, name2),
    ensures
        org1 == org2,
        name1 == name2,
{
    let t = trim_spec(model_id);
    if org1.len() < org2.len() {
        assert(t[org1.len() as int] == '/');
        assert(org2[org1.len() as int] == t[org1.len() as int]);
    } else if org2.len() < org1.len() {
        assert(t[org2.len() as int] == '/');
        assert(org1[org2.len() as int] == t[org2.len() as int]);
    }
    assert(org1 =~= t.subrange(0, org1.len() as int));
    assert(org2 =~= t.subrange(0, org2.len() as int));
    assert(name1 =~= t.subrange(org1.len() as int + 1, t.len() as int));
    assert(name2 =~= t.subrange(org2.len() as int + 1, t.len() as int));
}

proof fn lemma_last_index_of(s: Seq<char>, c: char)
    ensures
        match last_index_of(s, c) {
            Some(i) => 0 <= i < s.len() && s[i] == c && forall|j: int| i < j < s.len() ==> s[j] != c,
            None => !s.contains(c),
        },
    decreases s.len(),
{
    if s.len() > 0 {
        lemma_last_index_of(s.drop_last(), c);
        if s.last() != c {
            match last_index_of(s.drop_last(), c) {
                Some(i) => {
                    assert forall|j: int| i < j < s.len() implies s[j] != c by {
                        if j < s.len() - 1 {
                            assert(s[j] == s.drop_last()[j]);
                        }
                    }
                },
                None => {
                    if s.contains(c) {
                        let j = choose|j: int| 0 <= j < s.len() && s[j] == c;
                        assert(s.drop_last()[j] == c);
                    }
                },
            }
        }
    }
}

/// The extension of a plain path is a suffix of it, behind a `.`.
pub proof fn lemma_plain_extension_is_suffix(p: Seq<char>)
    requires
        plain_path(p),
        plain_path_extension(p) is Some,
    ensures
        ends_with(p, seq!['.'] + plain_path_extension(p).unwrap()),
{
    let name = final_component(p);
    lemma_last_index_of(p, '/');
    lemma_last_index_of(name, '.');
    let k = last_index_of(name, '.').unwrap();
    let e = name.subrange(k + 1, name.len() as int);
    let tail = seq!['.'] + e;
    assert(tail =~= name.subrange(k, name.len() as int));
    match last_index_of(p, '/') {
        Some(i) => {
            assert(name.subrange(k, name.len() as int) =~= p.subrange(
                p.len() - tail.len(),
                p.len() as int,
            ));
        },
        None => {
            assert(name.subrange(k, name.len() as int) =~= p.subrange(
                p.len() - tail.len(),
                p.len() as int,
            ));
        },
    }
}

/// The cache directory of `org/name` is `{root}/{org}/{name}`: with
/// `MODELSCOPE_CACHE` set it is that root followed by exactly the org and
/// the name, whatever `HOME` is; otherwise the root is
/// `{HOME}/.cache/modelscope/hub/models`; without either there is none.
pub proof fn lemma_cache_dir_layout(
    modelscope_cache: Option<Seq<char>>,
    home: Option<Seq<char>>,
    org: Seq<char>,
    name: Seq<char>,
)
    ensures
        modelscope_cache matches Some(root) ==> cache_dir_spec(modelscope_cache, home, org, name)
            == Some(seq![root, org, name]),
        modelscope_cache is None ==> (home matches Some(h) ==> cache_dir_spec(
            modelscope_cache,
            home,
            org,
            name,
        ) == Some(seq![h, ".cache"@, "modelscope"@, "hub"@, "models"@, org, name])),
        modelscope_cache is None && home is None ==> cache_dir_spec(modelscope_cache, home, org, name)
            is None,
        cache_dir_spec(modelscope_cache, home, org, name) matches Some(parts) ==> parts.len() >= 3
            && parts[parts.len() - 2] == org && parts.last() == name,
{
}

} // verus!
