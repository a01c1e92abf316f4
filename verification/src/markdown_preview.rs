//! Which files get the Markdown preview, and where the preview's images live.
use vstd::prelude::*;

use crate::paths::{
    path_extension, path_is_absolute, path_join, spec_path_extension, spec_path_is_absolute,
    spec_path_join,
};
use crate::text::{ascii_lower_seq, ascii_lowercase, chars_of, starts_with, starts_with_exec};

verus! {

/// The extensions, lowercased, of Markdown files.
pub open spec fn is_markdown_extension(ext: Seq<char>) -> bool {
    ext == "md"@ || ext == "mdx"@ || ext == "markdown"@
}

/// Whether `path` names a Markdown file: its extension is `md`, `mdx` or
/// `markdown`, in any ASCII case.
pub fn is_markdown_path(path: &str) -> (b: bool)
    ensures
        b == (spec_path_extension(path@) matches Some(ext) && is_markdown_extension(
            ascii_lower_seq(ext),
        )),
{
    match path_extension(path) {
        Some(ext) => {
            let ev = chars_of(ext.as_str());
            let lower = ascii_lowercase(ev.as_slice());
            let md = chars_of("md");
            let mdx = chars_of("mdx");
            let markdown = chars_of("markdown");
            crate::text::chars_eq(lower.as_slice(), md.as_slice()) || crate::text::chars_eq(
                lower.as_slice(),
                mdx.as_slice(),
            ) || crate::text::chars_eq(lower.as_slice(), markdown.as_slice())
        },
        None => false,
    }
}

/// The key that keeps each file's preview scroll position apart: the
/// file's path, or "untitled" for a buffer without one.
pub fn markdown_preview_scroll_salt(path: Option<&str>) -> (r: String)
    ensures
        r@ == match path {
            Some(p) => p@,
            None => "untitled"@,
        },
{
    match path {
        Some(p) => p.to_string(),
        None => "untitled".to_string(),
    }
}

/// Targets the preview never loads from disk: web and data URLs and
/// in-page anchors.
pub open spec fn is_remote_target(target: Seq<char>) -> bool {
    ||| starts_with(target, "http://"@)
    ||| starts_with(target, "https://"@)
    ||| starts_with(target, "data:"@)
    ||| starts_with(target, "#"@)
}

/// The file an image target refers to: none for a remote target; the
/// target itself when absolute; else the target joined to the Markdown
/// file's directory, when there is one.
pub fn resolve_local_image_path(base_dir: Option<&str>, target: &str) -> (r: Option<String>)
    ensures
        match r {
            Some(p) => !is_remote_target(target@) && if spec_path_is_absolute(target@) {
                p@ == target@
            } else {
                base_dir matches Some(base) && p@ == spec_path_join(base@, target@)
            },
            None => is_remote_target(target@) || (!spec_path_is_absolute(target@)
                && base_dir is None),
        },
{
    let t = chars_of(target);
    let http = chars_of("http://");
    let https = chars_of("https://");
    let data = chars_of("data:");
    let anchor = chars_of("#");
    if starts_with_exec(t.as_slice(), http.as_slice()) || starts_with_exec(
        t.as_slice(),
        https.as_slice(),
    ) || starts_with_exec(t.as_slice(), data.as_slice()) || starts_with_exec(
        t.as_slice(),
        anchor.as_slice(),
    ) {
        return None;
    }
    if path_is_absolute(target) {
        return Some(target.to_string());
    }
    match base_dir {
        Some(base) => Some(path_join(base, target)),
        None => None,
    }
}

} // verus!
