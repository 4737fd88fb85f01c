//! The metadata types parsed from a document's YAML front matter: per-post
//! metadata, the site-level metadata of the index document, and the small
//! blog descriptor.  The schema logic — which fields are required, which
//! default, and when a document is rejected — is verified; only the YAML
//! field reads and URL normalisation go through trusted wrappers.

use vstd::prelude::*;

use crate::error::Error;
use crate::time::{datetime_parse_spec, ts_wf, MyDateTime};
use crate::urlutil::{base_url_of, is_normalized_base, parse_base_url, url_with_path, with_path_of};
use crate::yaml::{
    yaml_as_bool, yaml_as_seq, yaml_as_str, yaml_get, yaml_is_null, yaml_parse, yaml_doc_of,
    yaml_fields_of, YamlV,
};

verus! {

/// The fields of a parsed YAML document, as `yaml::yaml_doc_of` models them.
pub type YamlDoc = Map<Seq<char>, YamlV>;

/// The field `k` is an acceptable optional string: absent, null, or a
/// string.
pub open spec fn opt_str_ok(m: YamlDoc, k: Seq<char>) -> bool {
    !m.contains_key(k) || m[k] is Null || m[k] is Str
}

/// The text of the optional string field `k`, when it holds one.
pub open spec fn opt_str_of(m: YamlDoc, k: Seq<char>) -> Option<Seq<char>> {
    if m.contains_key(k) {
        match m[k] {
            YamlV::Str(s) => Some(s),
            _ => None,
        }
    } else {
        None
    }
}

/// The field `k` is an acceptable defaulted boolean: absent or a boolean.
pub open spec fn bool_ok(m: YamlDoc, k: Seq<char>) -> bool {
    !m.contains_key(k) || m[k] is Bool
}

/// The value of the boolean field `k`, defaulting to `d` when absent.
pub open spec fn bool_of(m: YamlDoc, k: Seq<char>, d: bool) -> bool {
    if m.contains_key(k) {
        match m[k] {
            YamlV::Bool(b) => b,
            _ => d,
        }
    } else {
        d
    }
}

/// The `tags` field is acceptable: absent, or a sequence of strings.
pub open spec fn tags_ok(m: YamlDoc) -> bool {
    !m.contains_key("tags"@) || (match m["tags"@] {
        YamlV::List(l) => forall|i: int| 0 <= i < l.len() ==> l[i] is Str,
        _ => false,
    })
}

/// The tag texts, in order; empty when the field is absent.
pub open spec fn tags_of(m: YamlDoc) -> Seq<Seq<char>> {
    if m.contains_key("tags"@) {
        match m["tags"@] {
            YamlV::List(l) => l.map_values(
                |y: YamlV|
                    match y {
                        YamlV::Str(s) => s,
                        _ => Seq::<char>::empty(),
                    },
            ),
            _ => Seq::<Seq<char>>::empty(),
        }
    } else {
        Seq::<Seq<char>>::empty()
    }
}

/// The `created` field is acceptable: absent, null, or a string in one of
/// the accepted datetime formats whose timestamp lies in the supported band.
pub open spec fn created_ok(m: YamlDoc) -> bool {
    &&& opt_str_ok(m, "created"@)
    &&& (match opt_str_of(m, "created"@) {
        Some(s) => (match datetime_parse_spec(s) {
            Some(t) => ts_wf(t),
            None => false,
        }),
        None => true,
    })
}

/// The creation timestamp the `created` field names, when it names one.
pub open spec fn created_of(m: YamlDoc) -> Option<i64> {
    match opt_str_of(m, "created"@) {
        Some(s) => datetime_parse_spec(s),
        None => None,
    }
}

/// The text of the required string field `title`.
pub open spec fn title_of(m: YamlDoc) -> Seq<char> {
    match m["title"@] {
        YamlV::Str(s) => s,
        _ => Seq::<char>::empty(),
    }
}

/// A document satisfies the post front-matter schema: a string `title` is
/// required; `author` and `summary` are optional strings; `created` is an
/// optional datetime in an accepted format; `highlight` must be a boolean
/// when present, `tags` a sequence of strings when present.
pub open spec fn post_schema_ok(m: YamlDoc) -> bool {
    &&& m.contains_key("title"@) && m["title"@] is Str
    &&& opt_str_ok(m, "author"@)
    &&& opt_str_ok(m, "summary"@)
    &&& created_ok(m)
    &&& bool_ok(m, "highlight"@)
    &&& tags_ok(m)
}

/// The `url` field (or another URL-valued field `k`) is a string that
/// normalises to a hierarchical base URL.
pub open spec fn url_field_ok(m: YamlDoc, k: Seq<char>) -> bool {
    m.contains_key(k) && (match m[k] {
        YamlV::Str(s) => base_url_of(s) is Some,
        _ => false,
    })
}

/// The normalised text of the URL field `k`.
pub open spec fn url_field_of(m: YamlDoc, k: Seq<char>) -> Seq<char> {
    match m[k] {
        YamlV::Str(s) => match base_url_of(s) {
            Some(u) => u,
            None => Seq::<char>::empty(),
        },
        _ => Seq::<char>::empty(),
    }
}

/// The `lang` field is acceptable: absent or a string.
pub open spec fn lang_ok(m: YamlDoc) -> bool {
    !m.contains_key("lang"@) || m["lang"@] is Str
}

/// The language code, defaulting to `en_US` when absent.
pub open spec fn lang_of(m: YamlDoc) -> Seq<char> {
    if m.contains_key("lang"@) {
        match m["lang"@] {
            YamlV::Str(s) => s,
            _ => "en_US"@,
        }
    } else {
        "en_US"@
    }
}

/// The `coffee` field is acceptable: absent, or a string that normalises to
/// a base URL.
pub open spec fn coffee_ok(m: YamlDoc) -> bool {
    !m.contains_key("coffee"@) || url_field_ok(m, "coffee"@)
}

/// The normalised support link, when the field is present.
pub open spec fn coffee_of(m: YamlDoc) -> Option<Seq<char>> {
    if m.contains_key("coffee"@) {
        Some(url_field_of(m, "coffee"@))
    } else {
        None
    }
}

/// A document satisfies the index front-matter schema: the post fields
/// (without `created`), plus a required `url` that normalises to a base
/// URL, an optional string `short_title` and `lang`, a defaulted boolean
/// `twitter`, and an optional `coffee` that normalises like `url`.
pub open spec fn index_schema_ok(m: YamlDoc) -> bool {
    &&& m.contains_key("title"@) && m["title"@] is Str
    &&& opt_str_ok(m, "short_title"@)
    &&& opt_str_ok(m, "author"@)
    &&& opt_str_ok(m, "summary"@)
    &&& bool_ok(m, "highlight"@)
    &&& tags_ok(m)
    &&& url_field_ok(m, "url"@)
    &&& bool_ok(m, "twitter"@)
    &&& lang_ok(m)
    &&& coffee_ok(m)
}

/// A document satisfies the blog-descriptor schema: a string `url` (kept as
/// raw text) and a defaulted boolean `twitter`.
pub open spec fn blog_schema_ok(m: YamlDoc) -> bool {
    &&& m.contains_key("url"@) && m["url"@] is Str
    &&& bool_ok(m, "twitter"@)
}

/// The raw text of the required string field `url`.
pub open spec fn raw_url_of(m: YamlDoc) -> Seq<char> {
    match m["url"@] {
        YamlV::Str(s) => s,
        _ => Seq::<char>::empty(),
    }
}

/// The view of an optional string.
pub open spec fn opt_view(o: Option<String>) -> Option<Seq<char>> {
    match o {
        Some(s) => Some(s@),
        None => None,
    }
}

/// The views of a sequence of strings.
pub open spec fn views_of(v: Seq<String>) -> Seq<Seq<char>> {
    v.map_values(|s: String| s@)
}

/// Clones an optional string.
fn clone_opt_string(v: &Option<String>) -> (r: Option<String>)
    ensures
        opt_view(r) == opt_view(*v),
{
    match v {
        Some(s) => Some(s.clone()),
        None => None,
    }
}

/// Clones a vector of strings.
fn clone_strings(v: &Vec<String>) -> (r: Vec<String>)
    ensures
        views_of(r@) == views_of(v@),
{
    let mut out: Vec<String> = Vec::new();
    let mut i: usize = 0;
    while i < v.len()
        invariant
            i <= v@.len(),
            out@.len() == i,
            forall|k: int| 0 <= k < i ==> out@[k]@ == v@[k]@,
        decreases v@.len() - i,
    {
        out.push(v[i].clone());
        i += 1;
    }
    proof {
        assert(views_of(out@) =~= views_of(v@));
    }
    out
}

/// One post's parsed front matter.
#[derive(Debug)]
pub struct Metadata {
    pub title: String,
    pub author: Option<String>,
    pub summary: Option<String>,
    pub created: Option<MyDateTime>,
    pub highlight: bool,
    pub tags: Vec<String>,
}

/// The mathematical view of a `Metadata`.
#[verifier::ext_equal]
pub ghost struct MetadataV {
    pub title: Seq<char>,
    pub author: Option<Seq<char>>,
    pub summary: Option<Seq<char>>,
    pub created: Option<i64>,
    pub highlight: bool,
    pub tags: Seq<Seq<char>>,
}

impl View for Metadata {
    type V = MetadataV;

    open spec fn view(&self) -> MetadataV {
        MetadataV {
            title: self.title@,
            author: opt_view(self.author),
            summary: opt_view(self.summary),
            created: match self.created {
                Some(d) => Some(d.secs),
                None => None,
            },
            highlight: self.highlight,
            tags: views_of(self.tags@),
        }
    }
}

impl Metadata {
    /// The creation timestamp, when the front matter names one, lies in the
    /// supported band.
    pub open spec fn wf(&self) -> bool {
        match self.created {
            Some(d) => d.wf(),
            None => true,
        }
    }

    /// Builds a post metadata from the site-level metadata of the index
    /// document; the index has no creation timestamp.
    pub fn of_index(v: &IndexMetadata) -> (r: Metadata)
        ensures
            r@ == (MetadataV {
                title: v.title@,
                author: opt_view(v.author),
                summary: opt_view(v.summary),
                created: None,
                highlight: v.highlight,
                tags: views_of(v.tags@),
            }),
            r.wf(),
    {
        let r = Metadata {
            title: v.title.clone(),
            author: clone_opt_string(&v.author),
            summary: clone_opt_string(&v.summary),
            created: None,
            highlight: v.highlight,
            tags: clone_strings(&v.tags),
        };
        proof {
            assert(r@ =~= (MetadataV {
                title: v.title@,
                author: opt_view(v.author),
                summary: opt_view(v.summary),
                created: None,
                highlight: v.highlight,
                tags: views_of(v.tags@),
            }));
        }
        r
    }

    /// Parses a post's front-matter block.  The document must be well-formed
    /// YAML satisfying the post schema — a string `title`; `author` and
    /// `summary` optional strings; `created` an optional datetime in one of
    /// the accepted formats; `highlight` a boolean defaulting to false;
    /// `tags` a sequence of strings defaulting to empty — and each field of
    /// the result is the corresponding field of the document.
    pub fn from_yaml(yaml: &str) -> (r: Result<Metadata, Error>)
        ensures
            r is Ok <==> (yaml_doc_of(yaml@) matches Some(m) && post_schema_ok(m)),
            r matches Ok(md) ==> (yaml_doc_of(yaml@) matches Some(m) && {
                &&& md@.title == title_of(m)
                &&& md@.author == opt_str_of(m, "author"@)
                &&& md@.summary == opt_str_of(m, "summary"@)
                &&& md@.created == created_of(m)
                &&& md@.highlight == bool_of(m, "highlight"@, false)
                &&& md@.tags == tags_of(m)
                &&& md.wf()
            }),
            r matches Err(e) ==> e is Data,
    {
        let doc = match yaml_parse(yaml) {
            Ok(d) => d,
            Err(msg) => return Err(Error::Data(msg)),
        };
        let title = match get_required_string(&doc, "title") {
            Ok(s) => s,
            Err(e) => return Err(e),
        };
        let author = match get_opt_string(&doc, "author") {
            Ok(o) => o,
            Err(e) => return Err(e),
        };
        let summary = match get_opt_string(&doc, "summary") {
            Ok(o) => o,
            Err(e) => return Err(e),
        };
        let created = match get_opt_string(&doc, "created") {
            Ok(None) => None,
            Ok(Some(s)) => match MyDateTime::parse(s.as_str()) {
                Some(d) => Some(d),
                None => return Err(Error::Data("invalid datetime format".to_owned())),
            },
            Err(e) => return Err(e),
        };
        let highlight = match get_bool_or(&doc, "highlight", false) {
            Ok(b) => b,
            Err(e) => return Err(e),
        };
        let tags = match get_tags(&doc) {
            Ok(t) => t,
            Err(e) => return Err(e),
        };
        Ok(Metadata { title, author, summary, created, highlight, tags })
    }
}

impl Clone for Metadata {
    fn clone(&self) -> (r: Self)
        ensures
            r@ == self@,
    {
        let r = Metadata {
            title: self.title.clone(),
            author: clone_opt_string(&self.author),
            summary: clone_opt_string(&self.summary),
            created: self.created,
            highlight: self.highlight,
            tags: clone_strings(&self.tags),
        };
        proof {
            assert(r@ =~= self@);
        }
        r
    }
}

/// The site-level metadata parsed from the index document's front matter.
#[derive(Debug)]
pub struct IndexMetadata {
    pub title: String,
    pub short_title: Option<String>,
    pub author: Option<String>,
    pub summary: Option<String>,
    pub highlight: bool,
    pub tags: Vec<String>,
    /// The site's canonical base URL, normalised; validated to be a
    /// hierarchical ("can-be-a-base") URL at parse time, not at use time.
    pub url: String,
    pub twitter: bool,
    pub lang: String,
    /// An optional "support" link, normalised and validated like `url`.
    pub coffee: Option<String>,
}

/// The mathematical view of an `IndexMetadata`.
#[verifier::ext_equal]
pub ghost struct IndexMetadataV {
    pub title: Seq<char>,
    pub short_title: Option<Seq<char>>,
    pub author: Option<Seq<char>>,
    pub summary: Option<Seq<char>>,
    pub highlight: bool,
    pub tags: Seq<Seq<char>>,
    pub url: Seq<char>,
    pub twitter: bool,
    pub lang: Seq<char>,
    pub coffee: Option<Seq<char>>,
}

impl View for IndexMetadata {
    type V = IndexMetadataV;

    open spec fn view(&self) -> IndexMetadataV {
        IndexMetadataV {
            title: self.title@,
            short_title: opt_view(self.short_title),
            author: opt_view(self.author),
            summary: opt_view(self.summary),
            highlight: self.highlight,
            tags: views_of(self.tags@),
            url: self.url@,
            twitter: self.twitter,
            lang: self.lang@,
            coffee: opt_view(self.coffee),
        }
    }
}

impl IndexMetadata {
    /// Parses the index document's front-matter block.  The document must be
    /// well-formed YAML satisfying the index schema — the post fields, plus
    /// a required `url` that normalises to a hierarchical base URL, `lang`
    /// defaulting to `en_US`, `twitter` to false, and `coffee`, when
    /// present, normalising like `url` — and each field of the result is the
    /// corresponding field of the document.
    pub fn from_yaml(yaml: &str) -> (r: Result<IndexMetadata, Error>)
        ensures
            r is Ok <==> (yaml_doc_of(yaml@) matches Some(m) && index_schema_ok(m)),
            r matches Ok(im) ==> (yaml_doc_of(yaml@) matches Some(m) && {
                &&& im@.title == title_of(m)
                &&& im@.short_title == opt_str_of(m, "short_title"@)
                &&& im@.author == opt_str_of(m, "author"@)
                &&& im@.summary == opt_str_of(m, "summary"@)
                &&& im@.highlight == bool_of(m, "highlight"@, false)
                &&& im@.tags == tags_of(m)
                &&& im@.url == url_field_of(m, "url"@)
                &&& im@.twitter == bool_of(m, "twitter"@, false)
                &&& im@.lang == lang_of(m)
                &&& im@.coffee == coffee_of(m)
            }),
            r matches Ok(im) ==> is_normalized_base(im.url@),
            r matches Ok(im) ==> (im.coffee matches Some(c) ==> is_normalized_base(c@)),
            r matches Err(e) ==> e is Data,
    {
        let doc = match yaml_parse(yaml) {
            Ok(d) => d,
            Err(msg) => return Err(Error::Data(msg)),
        };
        let title = match get_required_string(&doc, "title") {
            Ok(s) => s,
            Err(e) => return Err(e),
        };
        let short_title = match get_opt_string(&doc, "short_title") {
            Ok(o) => o,
            Err(e) => return Err(e),
        };
        let author = match get_opt_string(&doc, "author") {
            Ok(o) => o,
            Err(e) => return Err(e),
        };
        let summary = match get_opt_string(&doc, "summary") {
            Ok(o) => o,
            Err(e) => return Err(e),
        };
        let highlight = match get_bool_or(&doc, "highlight", false) {
            Ok(b) => b,
            Err(e) => return Err(e),
        };
        let tags = match get_tags(&doc) {
            Ok(t) => t,
            Err(e) => return Err(e),
        };
        let url_text = match get_required_string(&doc, "url") {
            Ok(s) => s,
            Err(e) => return Err(e),
        };
        let url = match parse_base_url(url_text.as_str()) {
            Some(u) => u,
            None => return Err(Error::Data("index URL must be a base URL".to_owned())),
        };
        let twitter = match get_bool_or(&doc, "twitter", false) {
            Ok(b) => b,
            Err(e) => return Err(e),
        };
        let lang = match yaml_get(&doc, "lang") {
            None => "en_US".to_owned(),
            Some(f) => match yaml_as_str(f) {
                Some(s) => s,
                None => return Err(Error::Data("expected a string for lang".to_owned())),
            },
        };
        let coffee = match yaml_get(&doc, "coffee") {
            None => None,
            Some(f) => match yaml_as_str(f) {
                Some(s) => match parse_base_url(s.as_str()) {
                    Some(u) => Some(u),
                    None => return Err(
                        Error::Data("coffee URL must be a base URL".to_owned()),
                    ),
                },
                None => return Err(Error::Data("expected a string for coffee".to_owned())),
            },
        };
        Ok(
            IndexMetadata {
                title,
                short_title,
                author,
                summary,
                highlight,
                tags,
                url,
                twitter,
                lang,
                coffee,
            },
        )
    }

    /// Builds the sharing link for a post: the site URL with its path
    /// replaced by `p/<id>`, when sharing is enabled.
    pub fn twitter_link(&self, post_id: &str) -> (r: Result<Option<String>, Error>)
        ensures
            (match with_path_of(self.url@, "p/"@ + post_id@) {
                Some(u) => if self.twitter {
                    r matches Ok(Some(l)) && l@ == u
                } else {
                    r matches Ok(l) && l is None
                },
                None => r matches Err(e) && e is Internal,
            }),
    {
        let mut path = String::from_str("p/");
        path.append(post_id);
        match url_with_path(self.url.as_str(), path.as_str()) {
            Some(u) => if self.twitter {
                Ok(Some(u))
            } else {
                Ok(None)
            },
            None => Err(Error::Internal("site URL does not parse".to_owned())),
        }
    }
}

impl Default for IndexMetadata {
    /// The placeholder site metadata used before the first successful index
    /// parse.
    fn default() -> (r: Self)
        ensures
            r.title@ == Seq::<char>::empty(),
            r.short_title is None,
            r.author is None,
            r.summary is None,
            !r.highlight,
            r.tags@.len() == 0,
            r.url@ == "https://unspecified.com"@,
            !r.twitter,
            r.lang@ == Seq::<char>::empty(),
            r.coffee is None,
    {
        IndexMetadata {
            title: String::new(),
            short_title: None,
            author: None,
            summary: None,
            highlight: false,
            tags: Vec::new(),
            url: "https://unspecified.com".to_owned(),
            twitter: false,
            lang: String::new(),
            coffee: None,
        }
    }
}

/// The blog descriptor: the site URL as raw text and the sharing flag.
#[derive(Debug)]
pub struct Blog {
    pub url: String,
    pub twitter: bool,
}

impl Blog {
    /// Parses a blog descriptor: a string `url` is required, `twitter`
    /// defaults to false.  The URL text is kept as given; it is only parsed
    /// when a sharing link is built.
    pub fn from_yaml(yaml: &str) -> (r: Result<Blog, Error>)
        ensures
            r is Ok <==> (yaml_doc_of(yaml@) matches Some(m) && blog_schema_ok(m)),
            r matches Ok(b) ==> (yaml_doc_of(yaml@) matches Some(m) && b.url@ == raw_url_of(m)
                && b.twitter == bool_of(m, "twitter"@, false)),
            r matches Err(e) ==> e is Data,
    {
        let doc = match yaml_parse(yaml) {
            Ok(d) => d,
            Err(msg) => return Err(Error::Data(msg)),
        };
        let url = match get_required_string(&doc, "url") {
            Ok(s) => s,
            Err(e) => return Err(e),
        };
        let twitter = match get_bool_or(&doc, "twitter", false) {
            Ok(b) => b,
            Err(e) => return Err(e),
        };
        Ok(Blog { url, twitter })
    }

    /// Builds the sharing link for a post, as `IndexMetadata::twitter_link`,
    /// except that the URL text is parsed here for the first time.
    pub fn twitter_link(&self, post_id: &str) -> (r: Result<Option<String>, Error>)
        ensures
            (match with_path_of(self.url@, "p/"@ + post_id@) {
                Some(u) => if self.twitter {
                    r matches Ok(Some(l)) && l@ == u
                } else {
                    r matches Ok(l) && l is None
                },
                None => r matches Err(e) && e is Internal,
            }),
    {
        let mut path = String::from_str("p/");
        path.append(post_id);
        match url_with_path(self.url.as_str(), path.as_str()) {
            Some(u) => if self.twitter {
                Ok(Some(u))
            } else {
                Ok(None)
            },
            None => Err(Error::Internal("blog URL does not parse".to_owned())),
        }
    }
}

/// Reads an optional string field: absent or null yields `None`, a string
/// yields its text, and any other value is a data error.
fn get_opt_string(v: &serde_yaml::Value, key: &str) -> (r: Result<Option<String>, Error>)
    ensures
        r is Ok <==> opt_str_ok(yaml_fields_of(*v), key@),
        r matches Ok(o) ==> opt_view(o) == opt_str_of(yaml_fields_of(*v), key@),
        r matches Err(e) ==> e is Data,
{
    match yaml_get(v, key) {
        None => Ok(None),
        Some(field) => {
            if yaml_is_null(field) {
                Ok(None)
            } else {
                match yaml_as_str(field) {
                    Some(s) => Ok(Some(s)),
                    None => Err(Error::Data("expected a string".to_owned())),
                }
            }
        },
    }
}

/// Reads a required string field: absent, null or non-string is a data
/// error.
fn get_required_string(v: &serde_yaml::Value, key: &str) -> (r: Result<String, Error>)
    ensures
        r is Ok <==> (yaml_fields_of(*v).contains_key(key@) && yaml_fields_of(*v)[key@] is Str),
        r matches Ok(s) ==> opt_str_of(yaml_fields_of(*v), key@) == Some(s@),
        r matches Err(e) ==> e is Data,
{
    match get_opt_string(v, key) {
        Ok(Some(s)) => Ok(s),
        Ok(None) => Err(Error::Data("missing required field".to_owned())),
        Err(e) => Err(e),
    }
}

/// Reads a boolean field with a default: absent yields the default, a
/// boolean yields itself, and any other value is a data error.
fn get_bool_or(v: &serde_yaml::Value, key: &str, default: bool) -> (r: Result<bool, Error>)
    ensures
        r is Ok <==> bool_ok(yaml_fields_of(*v), key@),
        r matches Ok(b) ==> b == bool_of(yaml_fields_of(*v), key@, default),
        r matches Err(e) ==> e is Data,
{
    match yaml_get(v, key) {
        None => Ok(default),
        Some(field) => match yaml_as_bool(field) {
            Some(b) => Ok(b),
            None => Err(Error::Data("expected a boolean".to_owned())),
        },
    }
}

/// Reads the `tags` field: absent yields no tags, a sequence of strings
/// yields them in order, and any other value is a data error.
fn get_tags(v: &serde_yaml::Value) -> (r: Result<Vec<String>, Error>)
    ensures
        r is Ok <==> tags_ok(yaml_fields_of(*v)),
        r matches Ok(t) ==> views_of(t@) == tags_of(yaml_fields_of(*v)),
        r matches Err(e) ==> e is Data,
{
    let ghost m = yaml_fields_of(*v);
    match yaml_get(v, "tags") {
        None => {
            proof {
                assert(views_of(Seq::<String>::empty()) =~= tags_of(m));
            }
            Ok(Vec::new())
        },
        Some(field) => match yaml_as_seq(field) {
            Some(items) => {
                let ghost l = crate::yaml::yaml_of(*field)->List_0;
                let mut tags: Vec<String> = Vec::new();
                let mut i: usize = 0;
                while i < items.len()
                    invariant
                        m == yaml_fields_of(*v),
                        m.contains_key("tags"@),
                        m["tags"@] == YamlV::List(l),
                        i <= items@.len(),
                        l.len() == items@.len(),
                        forall|k: int|
                            0 <= k < items@.len() ==> crate::yaml::yaml_of(#[trigger] items@[k])
                                == l[k],
                        tags@.len() == i,
                        forall|k: int| 0 <= k < i ==> (#[trigger] l[k]) is Str,
                        forall|k: int| 0 <= k < i ==> #[trigger] tags@[k]@ == l[k]->Str_0,
                    decreases items@.len() - i,
                {
                    match yaml_as_str(&items[i]) {
                        Some(s) => {
                            let ghost sv = s@;
                            tags.push(s);
                            proof {
                                assert(l[i as int] == YamlV::Str(sv));
                                assert(tags@[i as int]@ == sv);
                            }
                        },
                        None => {
                            proof {
                                assert(!(l[i as int] is Str));
                            }
                            return Err(Error::Data("expected a string tag".to_owned()));
                        },
                    }
                    i += 1;
                }
                proof {
                    assert(tags_ok(m));
                    assert(views_of(tags@) =~= tags_of(m));
                }
                Ok(tags)
            },
            None => Err(Error::Data("expected a sequence of tags".to_owned())),
        },
    }
}

} // verus!
