//! Caching the images of a Linear issue: which images still need a file, and
//! the download of one image into the cache directory, as a step function
//! (the host performs each request and answers it).
use crate::linear_issues::{
    extract_linear_image_urls, image_cache_name, image_urls, is_trusted_linear_image_url,
    linear_image_cache_name, pairs_view, replacement, trusted_image_url,
    MAX_LINEAR_CONTEXT_IMAGE_BYTES,
};
use crate::process::{cat, opt_str, own, strs};
use crate::text::{starts, starts_with_str, str_eq};
use vstd::prelude::*;

verus! {

// ---------------------------------------------------------------------------
// Which images need a file
// ---------------------------------------------------------------------------

/// The URLs that have no cached file yet, in order.
pub open spec fn without_cached(urls: Seq<Seq<char>>, cached: Seq<(Seq<char>, Seq<char>)>) -> Seq<
    Seq<char>,
>
    decreases urls.len(),
{
    if urls.len() == 0 {
        seq![]
    } else if replacement(cached, urls.last()) is None {
        without_cached(urls.drop_last(), cached).push(urls.last())
    } else {
        without_cached(urls.drop_last(), cached)
    }
}

fn is_cached(cached: &Vec<(String, String)>, url: &str) -> (r: bool)
    ensures
        r == (replacement(pairs_view(cached@), url@) is Some),
{
    let ghost all = pairs_view(cached@);
    let mut i: usize = 0;
    assert(all.skip(0) =~= all);
    while i < cached.len()
        invariant
            i <= cached@.len(),
            all == pairs_view(cached@),
            replacement(all, url@) == replacement(all.skip(i as int), url@),
        decreases cached.len() - i,
    {
        assert(all.skip(i as int)[0] == all[i as int]);
        if str_eq(cached[i].0.as_str(), url) {
            return true;
        }
        assert(all.skip(i as int).drop_first() =~= all.skip(i + 1));
        i = i + 1;
    }
    false
}

/// The trusted Linear images of a markdown text that have no file in
/// `cached` (pairs of image URL and file) yet, each once, in order.
pub fn uncached_image_urls(markdown: &str, cached: &Vec<(String, String)>) -> (r: Vec<String>)
    ensures
        strs(r@) == without_cached(image_urls(markdown@), pairs_view(cached@)),
{
    let urls = extract_linear_image_urls(markdown);
    let ghost all = strs(urls@);
    let ghost reps = pairs_view(cached@);
    let mut out: Vec<String> = Vec::new();
    let mut i: usize = 0;
    assert(all.take(0) =~= Seq::<Seq<char>>::empty());
    assert(strs(out@) =~= Seq::<Seq<char>>::empty());
    while i < urls.len()
        invariant
            i <= urls@.len(),
            all == strs(urls@),
            reps == pairs_view(cached@),
            strs(out@) == without_cached(all.take(i as int), reps),
        decreases urls.len() - i,
    {
        assert(all.take(i + 1).drop_last() =~= all.take(i as int));
        assert(all.take(i + 1).last() == urls@[i as int]@);
        if !is_cached(cached, urls[i].as_str()) {
            let ghost before = strs(out@);
            out.push(urls[i].clone());
            assert(strs(out@) =~= before.push(urls@[i as int]@));
        }
        i = i + 1;
    }
    assert(all.take(all.len() as int) =~= all);
    out
}

// ---------------------------------------------------------------------------
// Downloading one image
// ---------------------------------------------------------------------------

/// The head of the response to an image request.
#[derive(Clone, Debug)]
pub struct ImageResponse {
    /// The HTTP status code.
    pub status: u16,
    /// The status as the host displays it (for example `404 Not Found`).
    pub status_text: String,
    /// The `Content-Type` header, when present and readable as text.
    pub content_type: Option<String>,
}

/// What downloading an image asks of the host next. Paths are file names in
/// the cache directory, which the host holds.
#[derive(Debug)]
pub enum ImageAction {
    /// Send `GET url` with this `Authorization` header; answer with
    /// [`ImageReply::Response`].
    Get { url: String, authorization: String },
    /// Read the next chunk of the body and keep it; answer with
    /// [`ImageReply::Chunk`].
    ReadChunk,
    /// Create the cache directory with its parents; answer with [`ImageReply::Done`].
    CreateCacheDir,
    /// Tell whether this file exists; answer with [`ImageReply::Exists`].
    CheckExists(String),
    /// Write the bytes read to this file; answer with [`ImageReply::Done`].
    Write(String),
    /// Finished: the name of the cached file, or why there is none.
    Finish(Result<String, String>),
}

/// The host's answer to an [`ImageAction`].
#[derive(Debug)]
pub enum ImageReply {
    /// The response head, or why the request failed.
    Response(Result<ImageResponse, String>),
    /// The length of the chunk read (`None` at the end of the body), or why
    /// reading failed.
    Chunk(Result<Option<u64>, String>),
    /// Done, or why it failed.
    Done(Result<(), String>),
    /// Whether the file exists.
    Exists(bool),
}

/// The mathematical form of an [`ImageAction`].
pub enum ImageActionView {
    Get(Seq<char>, Seq<char>),
    ReadChunk,
    CreateCacheDir,
    CheckExists(Seq<char>),
    Write(Seq<char>),
    Finish(Result<Seq<char>, Seq<char>>),
}

impl View for ImageAction {
    type V = ImageActionView;

    open spec fn view(&self) -> ImageActionView {
        match self {
            ImageAction::Get { url, authorization } => ImageActionView::Get(url@, authorization@),
            ImageAction::ReadChunk => ImageActionView::ReadChunk,
            ImageAction::CreateCacheDir => ImageActionView::CreateCacheDir,
            ImageAction::CheckExists(n) => ImageActionView::CheckExists(n@),
            ImageAction::Write(n) => ImageActionView::Write(n@),
            ImageAction::Finish(Ok(n)) => ImageActionView::Finish(Ok(n@)),
            ImageAction::Finish(Err(e)) => ImageActionView::Finish(Err(e@)),
        }
    }
}

/// The response head answered: status, its display and content type.
pub open spec fn response_reply(r: ImageReply) -> Result<(u16, Seq<char>, Option<Seq<char>>), Seq<char>> {
    match r {
        ImageReply::Response(Ok(h)) => Ok((h.status, h.status_text@, opt_str(h.content_type))),
        ImageReply::Response(Err(e)) => Err(e@),
        _ => Err("The host gave no response"@),
    }
}

/// The chunk length answered.
pub open spec fn chunk_reply(r: ImageReply) -> Result<Option<u64>, Seq<char>> {
    match r {
        ImageReply::Chunk(Ok(n)) => Ok(n),
        ImageReply::Chunk(Err(e)) => Err(e@),
        _ => Err("The host gave no chunk"@),
    }
}

/// The outcome answered.
pub open spec fn done_reply(r: ImageReply) -> Result<(), Seq<char>> {
    match r {
        ImageReply::Done(Ok(())) => Ok(()),
        ImageReply::Done(Err(e)) => Err(e@),
        _ => Err("The host gave no outcome"@),
    }
}

/// Whether the file exists, as answered.
pub open spec fn exists_reply(r: ImageReply) -> bool {
    match r {
        ImageReply::Exists(b) => b,
        _ => false,
    }
}

/// Storing the body (its reply at `k` on): create the directory, then write
/// the file unless it is there already.
pub open spec fn store_phase(name: Seq<char>, replies: Seq<ImageReply>, k: int) -> ImageActionView {
    if replies.len() <= k {
        ImageActionView::CreateCacheDir
    } else if done_reply(replies[k]) is Err {
        ImageActionView::Finish(
            Err("Failed to create Linear image cache directory: "@ + done_reply(replies[k])->Err_0),
        )
    } else if replies.len() <= k + 1 {
        ImageActionView::CheckExists(name)
    } else if exists_reply(replies[k + 1]) {
        ImageActionView::Finish(Ok(name))
    } else if replies.len() <= k + 2 {
        ImageActionView::Write(name)
    } else if done_reply(replies[k + 2]) is Err {
        ImageActionView::Finish(
            Err("Failed to write Linear image cache file: "@ + done_reply(replies[k + 2])->Err_0),
        )
    } else {
        ImageActionView::Finish(Ok(name))
    }
}

/// Reading the body (chunk replies from `k` on, `total` bytes so far); more
/// than [`MAX_LINEAR_CONTEXT_IMAGE_BYTES`] in all is refused.
pub open spec fn body_phase(name: Seq<char>, replies: Seq<ImageReply>, k: int, total: nat) -> ImageActionView
    decreases replies.len() - k,
{
    if k < 0 || replies.len() <= k {
        ImageActionView::ReadChunk
    } else {
        match chunk_reply(replies[k]) {
            Err(e) => ImageActionView::Finish(Err("Failed to read Linear image bytes: "@ + e)),
            Ok(None) => store_phase(name, replies, k + 1),
            Ok(Some(n)) => if total + n > MAX_LINEAR_CONTEXT_IMAGE_BYTES {
                ImageActionView::Finish(Err("Linear image is too large to cache"@))
            } else {
                body_phase(name, replies, k + 1, (total + n) as nat)
            },
        }
    }
}

/// The download of the image at `url` into the cache (as the file named by
/// its URL's hash and its type), given the host's replies so far: only
/// trusted Linear URLs, only successful responses of an image type (or
/// without a type), and only bodies within the size limit.
pub open spec fn image_download_next(url: Seq<char>, api_key: Seq<char>, replies: Seq<ImageReply>) -> ImageActionView {
    if !trusted_image_url(url) {
        ImageActionView::Finish(Err("Refusing untrusted Linear image URL: "@ + url))
    } else if replies.len() == 0 {
        ImageActionView::Get(url, api_key)
    } else {
        match response_reply(replies[0]) {
            Err(e) => ImageActionView::Finish(Err("Failed to download Linear image: "@ + e)),
            Ok((status, status_text, content_type)) => if !(200 <= status < 300) {
                ImageActionView::Finish(Err("Linear image download failed with status "@ + status_text))
            } else if content_type is Some && !starts(content_type->0, "image/"@) {
                ImageActionView::Finish(
                    Err("Linear image URL returned non-image content type: "@ + content_type->0),
                )
            } else {
                body_phase(image_cache_name(url, content_type), replies, 1, 0)
            },
        }
    }
}

fn finish_err(message: String) -> (a: ImageAction)
    ensures
        a@ == ImageActionView::Finish(Err(message@)),
{
    ImageAction::Finish(Err(message))
}

fn store_step(name: &String, replies: &Vec<ImageReply>, k: usize) -> (a: ImageAction)
    requires
        k <= replies@.len(),
    ensures
        a@ == store_phase(name@, replies@, k as int),
{
    if replies.len() == k {
        return ImageAction::CreateCacheDir;
    }
    if let ImageReply::Done(Ok(())) = &replies[k] {
    } else {
        let reason = match &replies[k] {
            ImageReply::Done(Err(e)) => e.clone(),
            _ => own("The host gave no outcome"),
        };
        return finish_err(cat("Failed to create Linear image cache directory: ", reason.as_str()));
    }
    if replies.len() == k + 1 {
        return ImageAction::CheckExists(name.clone());
    }
    if let ImageReply::Exists(true) = &replies[k + 1] {
        return ImageAction::Finish(Ok(name.clone()));
    }
    if replies.len() == k + 2 {
        return ImageAction::Write(name.clone());
    }
    match &replies[k + 2] {
        ImageReply::Done(Ok(())) => ImageAction::Finish(Ok(name.clone())),
        ImageReply::Done(Err(e)) => finish_err(cat("Failed to write Linear image cache file: ", e.as_str())),
        _ => finish_err(
            cat("Failed to write Linear image cache file: ", "The host gave no outcome"),
        ),
    }
}

/// The next step of downloading the image at `url` into the cache, with
/// `api_key` as the `Authorization` header, given the host's replies so far.
pub fn download_linear_context_image(url: &str, api_key: &str, replies: &Vec<ImageReply>) -> (a:
    ImageAction)
    ensures
        a@ == image_download_next(url@, api_key@, replies@),
{
    if !is_trusted_linear_image_url(url) {
        return finish_err(cat("Refusing untrusted Linear image URL: ", url));
    }
    if replies.len() == 0 {
        return ImageAction::Get { url: own(url), authorization: own(api_key) };
    }
    let head = match &replies[0] {
        ImageReply::Response(Ok(h)) => h,
        ImageReply::Response(Err(e)) => {
            return finish_err(cat("Failed to download Linear image: ", e.as_str()));
        },
        _ => {
            return finish_err(
                cat("Failed to download Linear image: ", "The host gave no response"),
            );
        },
    };
    if !(200 <= head.status && head.status < 300) {
        return finish_err(
            cat("Linear image download failed with status ", head.status_text.as_str()),
        );
    }
    let content_type: Option<&str> = match &head.content_type {
        Some(ct) => {
            if !starts_with_str(crate::text::chars_of(ct.as_str()).as_slice(), "image/") {
                return finish_err(
                    cat("Linear image URL returned non-image content type: ", ct.as_str()),
                );
            }
            Some(ct.as_str())
        },
        None => None,
    };
    let name = linear_image_cache_name(url, content_type);
    assert(opt_str(head.content_type) == match content_type {
        Some(c) => Some(c@),
        None => None::<Seq<char>>,
    });
    let ghost cname = name@;
    assert(image_download_next(url@, api_key@, replies@) == body_phase(cname, replies@, 1, 0));
    let mut total: u64 = 0;
    let mut k: usize = 1;
    while k < replies.len()
        invariant
            1 <= k <= replies@.len(),
            total <= MAX_LINEAR_CONTEXT_IMAGE_BYTES,
            cname == name@,
            image_download_next(url@, api_key@, replies@) == body_phase(cname, replies@, 1, 0),
            body_phase(cname, replies@, 1, 0) == body_phase(cname, replies@, k as int, total as nat),
        decreases replies.len() - k,
    {
        match &replies[k] {
            ImageReply::Chunk(Ok(Some(n))) => {
                if *n > MAX_LINEAR_CONTEXT_IMAGE_BYTES as u64 - total {
                    return finish_err(own("Linear image is too large to cache"));
                }
                total = total + *n;
            },
            ImageReply::Chunk(Ok(None)) => {
                return store_step(&name, replies, k + 1);
            },
            ImageReply::Chunk(Err(e)) => {
                return finish_err(cat("Failed to read Linear image bytes: ", e.as_str()));
            },
            _ => {
                return finish_err(
                    cat("Failed to read Linear image bytes: ", "The host gave no chunk"),
                );
            },
        }
        k = k + 1;
    }
    ImageAction::ReadChunk
}

} // verus!
