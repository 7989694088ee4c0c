//! S3 buckets and objects as the browser shows them.
use vstd::prelude::*;
use crate::text::{chars_of, copy_opt_string, copy_string, has_char, lowercase, owned, push_char, push_str, seq_starts_with, starts_with_chars, str_eq, string_from_chars, sub_chars, to_lower, str_contains, seq_contains};
use crate::units::{human_size, size_text};

verus! {

/// A row of the bucket list.
#[derive(Debug, Clone)]
pub struct BucketInfo {
    pub name: String,
    pub region: Option<String>,
    pub created: Option<String>,
}

/// A row of an object listing: a folder (common prefix) or an object.
#[derive(Debug, Clone)]
pub struct ObjectInfo {
    pub key: String,
    pub display_name: String,
    pub is_prefix: bool,
    pub size: Option<i64>,
    pub last_modified: Option<String>,
    pub storage_class: Option<String>,
}

/// The metadata of one object and, for small text objects, its content.
#[derive(Debug, Clone)]
pub struct ObjectDetail {
    pub key: String,
    pub size: i64,
    pub content_type: String,
    pub last_modified: String,
    pub storage_class: String,
    pub etag: String,
    pub version_id: Option<String>,
    pub server_side_encryption: Option<String>,
    pub sse_kms_key_id: Option<String>,
    pub content_encoding: Option<String>,
    pub content_language: Option<String>,
    pub cache_control: Option<String>,
    pub content_disposition: Option<String>,
    pub metadata: Vec<(String, String)>,
    pub content: Option<String>,
}

/// An object as a listing returns it.
pub struct ListedObject {
    pub key: Option<String>,
    pub size: Option<i64>,
    pub last_modified: Option<String>,
    pub storage_class: Option<String>,
}

/// The message shown when an S3 call fails.
pub fn format_aws_error(op: &str, msg: &str) -> (r: String)
    ensures
        r@ == crate::aws::errors::aws_error_text(op@, msg@),
{
    crate::aws::errors::format_aws_error(op, msg)
}

/// An object size for people.
pub fn format_size(bytes: i64) -> (r: String)
    ensures
        r@ == size_text(bytes as int),
{
    human_size(bytes)
}

/// `s3://{bucket}/{key}`
pub open spec fn uri_text(bucket: Seq<char>, key: Seq<char>) -> Seq<char> {
    "s3://"@ + bucket + "/"@ + key
}

/// The `s3://` address of an object.
pub fn s3_uri(bucket: &str, key: &str) -> (r: String)
    ensures
        r@ == uri_text(bucket@, key@),
{
    let mut r = owned("s3://");
    push_str(&mut r, bucket);
    push_str(&mut r, "/");
    push_str(&mut r, key);
    r
}

/// The ARN of an object: `arn:aws:s3:::{bucket}/{key}`.
pub fn s3_arn(bucket: &str, key: &str) -> (r: String)
    ensures
        r@ == "arn:aws:s3:::"@ + bucket@ + "/"@ + key@,
{
    let mut r = owned("arn:aws:s3:::");
    push_str(&mut r, bucket);
    push_str(&mut r, "/");
    push_str(&mut r, key);
    r
}

/// The part of `s` after its last `c` (all of `s` when it holds no `c`).
pub open spec fn after_last(s: Seq<char>, c: char) -> Seq<char>
    decreases s.len(),
{
    if s.len() == 0 {
        s
    } else if s.last() == c {
        Seq::empty()
    } else {
        after_last(s.drop_last(), c).push(s.last())
    }
}

/// The part of `s` after its last `c`.
pub fn tail_after(s: &Vec<char>, c: char) -> (r: Vec<char>)
    ensures
        r@ == after_last(s@, c),
{
    let n = s.len();
    let mut i: usize = n;
    proof {
        assert(s@.take(n as int) =~= s@);
        assert(s@.subrange(n as int, n as int) =~= Seq::<char>::empty());
        assert(after_last(s@, c) =~= after_last(s@.take(n as int), c) + s@.subrange(n as int, n as int));
    }
    while i > 0 && s[i - 1] != c
        invariant
            n == s@.len(),
            0 <= i <= n,
            after_last(s@, c) == after_last(s@.take(i as int), c) + s@.subrange(i as int, n as int),
        decreases i,
    {
        proof {
            let t = s@.take(i as int);
            assert(t.drop_last() =~= s@.take(i - 1));
            assert(after_last(t, c) == after_last(s@.take(i - 1), c).push(s@[i - 1]));
            assert(s@.subrange(i - 1, n as int) =~= seq![s@[i - 1]] + s@.subrange(i as int, n as int));
            assert(after_last(s@.take(i - 1), c).push(s@[i - 1]) + s@.subrange(i as int, n as int)
                =~= after_last(s@.take(i - 1), c) + s@.subrange(i - 1, n as int));
        }
        i = i - 1;
    }
    proof {
        if i > 0 {
            assert(after_last(s@.take(i as int), c) =~= Seq::<char>::empty());
        } else {
            assert(after_last(s@.take(0), c) =~= Seq::<char>::empty());
        }
        assert(after_last(s@, c) =~= s@.subrange(i as int, n as int));
    }
    sub_chars(s, i, n)
}

/// The file name part of a key: what follows its last `/`.
pub fn file_name_of(key: &str) -> (r: String)
    ensures
        r@ == after_last(key@, '/'),
{
    let v = chars_of(key);
    let t = tail_after(&v, '/');
    string_from_chars(&t)
}

/// `s` without its trailing `c` characters.
pub open spec fn trim_end_char(s: Seq<char>, c: char) -> Seq<char>
    decreases s.len(),
{
    if s.len() > 0 && s.last() == c {
        trim_end_char(s.drop_last(), c)
    } else {
        s
    }
}

fn trim_end(v: &Vec<char>, c: char) -> (r: Vec<char>)
    ensures
        r@ == trim_end_char(v@, c),
{
    let mut n = v.len();
    proof {
        assert(v@.take(n as int) =~= v@);
    }
    while n > 0 && v[n - 1] == c
        invariant
            0 <= n <= v@.len(),
            trim_end_char(v@, c) == trim_end_char(v@.take(n as int), c),
        decreases n,
    {
        proof {
            assert(v@.take(n as int).drop_last() =~= v@.take(n - 1));
        }
        n = n - 1;
    }
    sub_chars(v, 0, n)
}

/// `s` without the leading `prefix` (all of `s` when it does not start with
/// it).
pub open spec fn strip_or_keep(s: Seq<char>, prefix: Seq<char>) -> Seq<char> {
    if seq_starts_with(s, prefix) {
        s.subrange(prefix.len() as int, s.len() as int)
    } else {
        s
    }
}

fn strip(s: &Vec<char>, prefix: &Vec<char>) -> (r: Vec<char>)
    ensures
        r@ == strip_or_keep(s@, prefix@),
{
    if starts_with_chars(s, prefix) {
        sub_chars(s, prefix.len(), s.len())
    } else {
        sub_chars(s, 0, s.len())
    }
}

/// The name a folder is listed under inside `prefix`: the common prefix
/// without `prefix` and without trailing slashes.
pub open spec fn folder_name(p: Seq<char>, prefix: Seq<char>) -> Seq<char> {
    trim_end_char(strip_or_keep(p, prefix), '/')
}

/// The name an object is listed under inside `prefix`.
pub open spec fn object_name(key: Seq<char>, prefix: Seq<char>) -> Seq<char> {
    strip_or_keep(key, prefix)
}

/// The object is listed inside `prefix`: it is not the prefix itself, and
/// what follows the prefix is not empty and holds no `/`.
pub open spec fn object_listed(key: Seq<char>, prefix: Seq<char>) -> bool {
    key != prefix && object_name(key, prefix).len() > 0 && !object_name(key, prefix).contains('/')
}

/// The folders listed inside `prefix`, as (key, display name) pairs; a
/// folder's display name ends with `/`.
pub open spec fn listed_folders(prefixes: Seq<Option<Seq<char>>>, prefix: Seq<char>) -> Seq<(Seq<char>, Seq<char>)>
    decreases prefixes.len(),
{
    if prefixes.len() == 0 {
        Seq::empty()
    } else {
        let r = listed_folders(prefixes.drop_last(), prefix);
        match prefixes.last() {
            Some(p) => if folder_name(p, prefix).len() > 0 {
                r.push((p, folder_name(p, prefix).push('/')))
            } else {
                r
            },
            None => r,
        }
    }
}

/// The key of a listed object (empty when the listing gave none).
pub open spec fn listed_key(o: ListedObject) -> Seq<char> {
    match o.key {
        Some(k) => k@,
        None => Seq::empty(),
    }
}

/// The positions of the objects listed inside `prefix`.
pub open spec fn listed_objects(objs: Seq<ListedObject>, prefix: Seq<char>) -> Seq<int>
    decreases objs.len(),
{
    if objs.len() == 0 {
        Seq::empty()
    } else {
        let r = listed_objects(objs.drop_last(), prefix);
        if object_listed(listed_key(objs.last()), prefix) {
            r.push(objs.len() - 1)
        } else {
            r
        }
    }
}

/// The optional texts of a list of optional strings.
pub open spec fn opt_texts(v: Seq<Option<String>>) -> Seq<Option<Seq<char>>> {
    v.map_values(|o: Option<String>| opt_text(o))
}

/// The texts of an optional string.
pub open spec fn opt_text(o: Option<String>) -> Option<Seq<char>> {
    match o {
        Some(s) => Some(s@),
        None => None,
    }
}

/// `e` is the row of the folder `f` (key, display name).
pub open spec fn folder_row(e: ObjectInfo, f: (Seq<char>, Seq<char>)) -> bool {
    &&& e.key@ == f.0
    &&& e.display_name@ == f.1
    &&& e.is_prefix
    &&& e.size is None && e.last_modified is None && e.storage_class is None
}

/// `r` holds exactly the rows of the folders `f`.
pub open spec fn rows_are_folders(r: Seq<ObjectInfo>, f: Seq<(Seq<char>, Seq<char>)>) -> bool {
    r.len() == f.len() && forall|i: int| 0 <= i < f.len() ==> folder_row(#[trigger] r[i], f[i])
}

/// The rows of a listing inside `prefix`: first the folders (common
/// prefixes) that have a name there, marked as folders, then the objects
/// directly inside the prefix, with their size, time and storage class.
pub open spec fn is_listing(
    r: Seq<ObjectInfo>,
    prefixes: Seq<Option<Seq<char>>>,
    objs: Seq<ListedObject>,
    prefix: Seq<char>,
) -> bool {
    let folders = listed_folders(prefixes, prefix);
    let files = listed_objects(objs, prefix);
    &&& r.len() == folders.len() + files.len()
    &&& forall|i: int| 0 <= i < folders.len() ==> folder_row(#[trigger] r[i], folders[i])
    &&& forall|j: int| 0 <= j < files.len() ==> {
        let o = objs[files[j]];
        let e = #[trigger] r[folders.len() + j];
        &&& e.key@ == listed_key(o)
        &&& e.display_name@ == object_name(listed_key(o), prefix)
        &&& !e.is_prefix
        &&& e.size == o.size
        &&& opt_text(e.last_modified) == opt_text(o.last_modified)
        &&& opt_text(e.storage_class) == opt_text(o.storage_class)
    }
}

/// Builds the rows of an object listing inside `prefix` from the common
/// prefixes and objects the service returned (see `is_listing`).
pub fn build_listing(prefix: &str, prefixes: &Vec<Option<String>>, objs: &Vec<ListedObject>) -> (r: Vec<ObjectInfo>)
    ensures
        is_listing(r@, opt_texts(prefixes@), objs@, prefix@),
{
    let pre = chars_of(prefix);
    let mut r: Vec<ObjectInfo> = Vec::new();
    let ghost ps = opt_texts(prefixes@);
    let n = prefixes.len();
    let mut i: usize = 0;
    while i < n
        invariant
            n == prefixes@.len(),
            ps == opt_texts(prefixes@),
            pre@ == prefix@,
            0 <= i <= n,
            rows_are_folders(r@, listed_folders(ps.take(i as int), prefix@)),
        decreases n - i,
    {
        proof {
            assert(ps.take(i + 1).drop_last() =~= ps.take(i as int));
            assert(ps.take(i + 1).last() == ps[i as int]);
        }
        let ghost old_r = r@;
        match &prefixes[i] {
            Some(p) => {
                let pv = chars_of(p.as_str());
                let display = trim_end(&strip(&pv, &pre), '/');
                if display.len() > 0 {
                    let mut name = string_from_chars(&display);
                    push_char(&mut name, '/');
                    proof {
                        assert(name@ =~= folder_name(p@, prefix@).push('/'));
                    }
                    r.push(
                        ObjectInfo {
                            key: copy_string(p),
                            display_name: name,
                            is_prefix: true,
                            size: None,
                            last_modified: None,
                            storage_class: None,
                        },
                    );
                }
            },
            None => {},
        }
        proof {
            let lf = listed_folders(ps.take(i + 1), prefix@);
            let lf0 = listed_folders(ps.take(i as int), prefix@);
            assert(ps[i as int] == opt_text(prefixes@[i as int]));
            assert forall|t: int| 0 <= t < old_r.len() implies r@[t] == old_r[t] by {}
            assert(rows_are_folders(old_r, lf0));
            assert(r@.len() == lf.len());
            assert forall|t: int| 0 <= t < r@.len() implies folder_row(#[trigger] r@[t], lf[t]) by {
                if t < old_r.len() {
                    assert(r@[t] == old_r[t]);
                    assert(lf[t] == lf0[t]);
                    assert(folder_row(old_r[t], lf0[t]));
                }
            }
        }
        i = i + 1;
    }
    proof {
        assert(ps.take(n as int) =~= ps);
        assert(r@.take(r@.len() as int) =~= r@);
    }
    let nf = r.len();
    let ghost folders = listed_folders(ps, prefix@);
    let m = objs.len();
    let mut j: usize = 0;
    while j < m
        invariant
            m == objs@.len(),
            pre@ == prefix@,
            folders == listed_folders(ps, prefix@),
            nf == folders.len(),
            0 <= j <= m,
            r@.len() == nf + listed_objects(objs@.take(j as int), prefix@).len(),
            rows_are_folders(r@.take(nf as int), folders),
            forall|t: int| 0 <= t < listed_objects(objs@.take(j as int), prefix@).len() ==> {
                let o = objs@[listed_objects(objs@.take(j as int), prefix@)[t]];
                let e = #[trigger] r@[nf + t];
                &&& e.key@ == listed_key(o)
                &&& e.display_name@ == object_name(listed_key(o), prefix@)
                &&& !e.is_prefix
                &&& e.size == o.size
                &&& opt_text(e.last_modified) == opt_text(o.last_modified)
                &&& opt_text(e.storage_class) == opt_text(o.storage_class)
            },
            forall|t: int| 0 <= t < listed_objects(objs@.take(j as int), prefix@).len() ==>
                0 <= #[trigger] listed_objects(objs@.take(j as int), prefix@)[t] < j,
        decreases m - j,
    {
        proof {
            assert(objs@.take(j + 1).drop_last() =~= objs@.take(j as int));
            assert(objs@.take(j + 1).last() == objs@[j as int]);
            lemma_listed_objects_index(objs@, prefix@, j as int);
        }
        let ghost old_r = r@;
        let o = &objs[j];
        let key: Vec<char> = match &o.key {
            Some(k) => chars_of(k.as_str()),
            None => Vec::new(),
        };
        proof {
            assert(key@ =~= listed_key(*o));
        }
        if !chars_eq_vec(&key, &pre) {
            let display = strip(&key, &pre);
            if display.len() > 0 && !has_char(&display, '/') {
                r.push(
                    ObjectInfo {
                        key: string_from_chars(&key),
                        display_name: string_from_chars(&display),
                        is_prefix: false,
                        size: o.size,
                        last_modified: copy_opt_string(&o.last_modified),
                        storage_class: copy_opt_string(&o.storage_class),
                    },
                );
            }
        }
        proof {
            assert forall|t: int| 0 <= t < old_r.len() implies r@[t] == old_r[t] by {}
            assert(r@.take(nf as int) =~= old_r.take(nf as int));
        }
        j = j + 1;
    }
    proof {
        assert(objs@.take(m as int) =~= objs@);
        assert forall|i: int| 0 <= i < folders.len() implies folder_row(#[trigger] r@[i], folders[i]) by {
            assert(r@.take(nf as int)[i] == r@[i]);
        }
    }
    r
}

proof fn lemma_listed_objects_index(objs: Seq<ListedObject>, prefix: Seq<char>, j: int)
    requires
        0 <= j < objs.len(),
    ensures
        forall|t: int| 0 <= t < listed_objects(objs.take(j + 1), prefix).len() ==>
            #[trigger] listed_objects(objs.take(j + 1), prefix)[t] == if t < listed_objects(objs.take(j), prefix).len() {
                listed_objects(objs.take(j), prefix)[t]
            } else {
                j
            },
{
    assert(objs.take(j + 1).drop_last() =~= objs.take(j));
}

fn chars_eq_vec(a: &Vec<char>, b: &Vec<char>) -> (r: bool)
    ensures
        r == (a@ == b@),
{
    crate::text::chars_eq(a, b)
}

/// The file extensions shown as text.
pub open spec fn text_extensions() -> Seq<Seq<char>> {
    seq![
        "txt"@, "json"@, "xml"@, "yaml"@, "yml"@, "csv"@, "log"@, "md"@, "html"@, "htm"@, "css"@,
        "js"@, "ts"@, "py"@, "rb"@, "rs"@, "go"@, "java"@, "sh"@, "bash"@, "zsh"@, "toml"@,
        "ini"@, "cfg"@, "conf"@, "env"@, "sql"@, "graphql"@, "tf"@, "hcl"@, "jsx"@, "tsx"@,
        "vue"@, "svelte"@
    ]
}

/// The object is text: the lowercase part of its key after the last `.` is
/// a known text extension, or its content type is `text/...` or names JSON,
/// XML, YAML or JavaScript.
pub open spec fn is_text_object(key: Seq<char>, content_type: Seq<char>) -> bool {
    text_extensions().contains(lowercase(after_last(key, '.')))
        || seq_starts_with(content_type, "text/"@) || seq_contains(content_type, "json"@)
        || seq_contains(content_type, "xml"@) || seq_contains(content_type, "yaml"@)
        || seq_contains(content_type, "javascript"@)
}

fn text_extension_list() -> (v: Vec<&'static str>)
    ensures
        v@.map_values(|s: &str| s@) == text_extensions(),
{
    let v = vec![
        "txt", "json", "xml", "yaml", "yml", "csv", "log", "md", "html", "htm", "css", "js", "ts",
        "py", "rb", "rs", "go", "java", "sh", "bash", "zsh", "toml", "ini", "cfg", "conf", "env",
        "sql", "graphql", "tf", "hcl", "jsx", "tsx", "vue", "svelte",
    ];
    proof {
        assert(v@.map_values(|s: &str| s@) =~= text_extensions());
    }
    v
}

/// Whether an object with this key and content type is text.
pub fn object_is_text(key: &str, content_type: &str) -> (r: bool)
    ensures
        r == is_text_object(key@, content_type@),
{
    let kv = chars_of(key);
    let ext = string_from_chars(&tail_after(&kv, '.'));
    let lower = to_lower(ext.as_str());
    let exts = text_extension_list();
    let mut found = false;
    let mut i: usize = 0;
    while i < exts.len()
        invariant
            exts@.map_values(|s: &str| s@) == text_extensions(),
            0 <= i <= exts@.len(),
            lower@ == lowercase(after_last(key@, '.')),
            found == exists|t: int| 0 <= t < i && text_extensions()[t] == lower@,
        decreases exts@.len() - i,
    {
        proof {
            assert(text_extensions()[i as int] == exts@[i as int]@);
        }
        if str_eq(exts[i], lower.as_str()) {
            found = true;
        }
        i = i + 1;
    }
    proof {
        if found {
            let t = choose|t: int| 0 <= t < i && text_extensions()[t] == lower@;
            assert(text_extensions().contains(lower@));
        }
        if text_extensions().contains(lower@) {
            let t = choose|t: int| 0 <= t < text_extensions().len() && text_extensions()[t] == lower@;
            assert(text_extensions().len() == exts@.len());
        }
    }
    found || crate::text::str_starts_with(content_type, "text/") || str_contains(content_type, "json")
        || str_contains(content_type, "xml") || str_contains(content_type, "yaml") || str_contains(
        content_type,
        "javascript",
    )
}

/// The content of an object is fetched for preview: it is text and smaller
/// than 512 000 bytes.
pub fn should_preview(key: &str, content_type: &str, size: i64) -> (r: bool)
    ensures
        r == (is_text_object(key@, content_type@) && size < 512_000),
{
    object_is_text(key, content_type) && size < 512_000
}

} // verus!
