//! Posts: what an upload may carry, which kind of post it makes, how post
//! lists are paged and filtered, and who may change a post.

use vstd::prelude::*;
use crate::errors::{AppError, is_validation_error};
use crate::ids::{is_object_id, check_object_id};
use crate::text::{str_eq, concat, lowercase_of, to_lowercase, is_digit};

verus! {

/// The largest image a post may carry: 40 MiB.
pub const MAX_FILE_SIZE: u64 = 41943040;

/// The largest video a post may carry: 100 MiB.
pub const MAX_VIDEO_SIZE: u64 = 104857600;

fn validation(msg: &str) -> (e: AppError)
    ensures
        is_validation_error(e, msg@),
{
    AppError::ValidationError(String::from_str(msg))
}

/// A character with the Unicode `White_Space` property, which is what
/// `char::is_whitespace` tests and `str::trim` strips.
pub open spec fn is_white_space(c: char) -> bool {
    ('\u{9}' <= c && c <= '\u{d}') || c == ' ' || c == '\u{85}' || c == '\u{a0}' || c == '\u{1680}'
        || ('\u{2000}' <= c && c <= '\u{200a}') || c == '\u{2028}' || c == '\u{2029}' || c == '\u{202f}'
        || c == '\u{205f}' || c == '\u{3000}'
}

/// Text that is empty once surrounding white space is trimmed.
pub open spec fn is_blank(s: Seq<char>) -> bool {
    forall|i: int| 0 <= i < s.len() ==> is_white_space(#[trigger] s[i])
}

pub fn white_space_char(c: char) -> (r: bool)
    ensures
        r == is_white_space(c),
{
    ('\u{9}' <= c && c <= '\u{d}') || c == ' ' || c == '\u{85}' || c == '\u{a0}' || c == '\u{1680}'
        || ('\u{2000}' <= c && c <= '\u{200a}') || c == '\u{2028}' || c == '\u{2029}' || c == '\u{202f}'
        || c == '\u{205f}' || c == '\u{3000}'
}

/// Whether `s` is blank: nothing but white space.
pub fn blank(s: &str) -> (r: bool)
    ensures
        r == is_blank(s@),
{
    let n = s.unicode_len();
    let mut i: usize = 0;
    while i < n
        invariant
            n == s@.len(),
            i <= n,
            forall|j: int| 0 <= j < i ==> is_white_space(#[trigger] s@[j]),
        decreases n - i,
    {
        if !white_space_char(s.get_char(i)) {
            return false;
        }
        i = i + 1;
    }
    true
}

/// The extension `std::path::Path::extension` finds in a file name.
pub uninterp spec fn path_extension_of(name: Seq<char>) -> Option<Seq<char>>;

/// A file name with no separator or drive mark in it (no `/`, `\\` or
/// `:`), which every target reads as a single path component.
pub open spec fn is_plain_name(name: Seq<char>) -> bool {
    forall|i: int| 0 <= i < name.len() ==> (#[trigger] name[i]) != '/' && name[i] != '\\' && name[i] != ':'
}

/// The text after the last `.` of a file name, when it has a `.` other
/// than a leading one.
pub open spec fn name_extension(f: Seq<char>) -> Option<Seq<char>>
    decreases f.len(),
{
    if f.len() <= 1 {
        None
    } else if f.last() == '.' {
        Some(Seq::empty())
    } else {
        match name_extension(f.drop_last()) {
            Some(e) => Some(e.push(f.last())),
            None => None,
        }
    }
}

/// The extension of a plain file name: none for an empty name, `.` or
/// `..`, otherwise `name_extension`.
pub open spec fn plain_extension(name: Seq<char>) -> Option<Seq<char>> {
    if name == ""@ || name == "."@ || name == ".."@ { None } else { name_extension(name) }
}

/// Calls `std::path::Path::extension` on a file name and reads it back as
/// text (it always is text, the name being a `str`). Its documentation
/// gives the rule: none when there is no file name (an empty name, `.` or
/// `..`), none when the file name has no `.` or only a leading one, and
/// otherwise the part after the final `.`. How a name is split into
/// components depends on the target (Windows also splits at `\\` and
/// reads drive prefixes), so the result is named `path_extension_of` of
/// the name, and the rule is stated for names that are a single component
/// on every target.
#[verifier::external_body]
fn path_extension(name: &str) -> (r: Option<String>)
    ensures
        match r {
            Some(e) => path_extension_of(name@) == Some(e@),
            None => path_extension_of(name@) is None,
        },
        is_plain_name(name@) ==> (match r { Some(e) => Some(e@), None => None::<Seq<char>> }) == plain_extension(name@),
{
    std::path::Path::new(name).extension().and_then(|e| e.to_str()).map(|e| e.to_string())
}

/// The lower-cased extension of a file name, empty when it has none.
pub open spec fn spec_extension(name: Seq<char>) -> Seq<char> {
    match path_extension_of(name) {
        Some(e) => lowercase_of(e),
        None => lowercase_of(""@),
    }
}

/// The lower-cased extension of an uploaded file's name.
pub fn media_extension(name: &str) -> (r: String)
    ensures
        r@ == spec_extension(name@),
        is_plain_name(name@) ==> r@ == lowercase_of(match plain_extension(name@) { Some(e) => e, None => ""@ }),
{
    match path_extension(name) {
        Some(e) => to_lowercase(e.as_str()),
        None => to_lowercase(""),
    }
}

/// The extensions an image may have.
pub open spec fn is_image_extension(e: Seq<char>) -> bool {
    e == "jpg"@ || e == "jpeg"@ || e == "png"@ || e == "gif"@
}

/// The extensions a video may have.
pub open spec fn is_video_extension(e: Seq<char>) -> bool {
    e == "mp4"@ || e == "mov"@ || e == "avi"@ || e == "mkv"@ || e == "webm"@
}

/// Whether an extension names a video format.
pub fn video_extension(e: &str) -> (r: bool)
    ensures
        r == is_video_extension(e@),
{
    str_eq(e, "mp4") || str_eq(e, "mov") || str_eq(e, "avi") || str_eq(e, "mkv") || str_eq(e, "webm")
}

/// Checks an uploaded image: at most `MAX_FILE_SIZE` bytes, then a known
/// image extension (lower-cased).
pub fn check_image(size: u64, ext: &str) -> (r: Result<(), AppError>)
    ensures
        size > MAX_FILE_SIZE ==> r == Err::<(), AppError>(AppError::ImageTooLarge),
        size <= MAX_FILE_SIZE && !is_image_extension(ext@) ==> r == Err::<(), AppError>(AppError::InvalidImageFormat),
        size <= MAX_FILE_SIZE && is_image_extension(ext@) ==> r is Ok,
{
    if size > MAX_FILE_SIZE {
        return Err(AppError::ImageTooLarge);
    }
    if !(str_eq(ext, "jpg") || str_eq(ext, "jpeg") || str_eq(ext, "png") || str_eq(ext, "gif")) {
        return Err(AppError::InvalidImageFormat);
    }
    Ok(())
}

/// Checks an uploaded video: at most `MAX_VIDEO_SIZE` bytes, then a known
/// video extension (lower-cased).
pub fn check_video(size: u64, ext: &str) -> (r: Result<(), AppError>)
    ensures
        size > MAX_VIDEO_SIZE ==> (r matches Err(e) && is_validation_error(e, "Video too large (max 100MB)"@)),
        size <= MAX_VIDEO_SIZE && !is_video_extension(ext@) ==> (r matches Err(e) && is_validation_error(e, "Invalid video format"@)),
        size <= MAX_VIDEO_SIZE && is_video_extension(ext@) ==> r is Ok,
{
    if size > MAX_VIDEO_SIZE {
        return Err(validation("Video too large (max 100MB)"));
    }
    if !video_extension(ext) {
        return Err(validation("Invalid video format"));
    }
    Ok(())
}

/// The kinds of post.
#[derive(Debug, Clone, Copy, PartialEq, Eq, Structural)]
pub enum PostType {
    Text,
    Image,
    Video,
    TextAndImage,
    TextAndVideo,
}

/// The name a kind of post is stored under.
pub fn post_type_name(t: PostType) -> (r: &'static str)
    ensures
        r@ == match t {
            PostType::Text => "Text"@,
            PostType::Image => "Image"@,
            PostType::Video => "Video"@,
            PostType::TextAndImage => "TextAndImage"@,
            PostType::TextAndVideo => "TextAndVideo"@,
        },
{
    proof {
        reveal_strlit("Text");
        reveal_strlit("Image");
        reveal_strlit("Video");
        reveal_strlit("TextAndImage");
        reveal_strlit("TextAndVideo");
    }
    match t {
        PostType::Text => "Text",
        PostType::Image => "Image",
        PostType::Video => "Video",
        PostType::TextAndImage => "TextAndImage",
        PostType::TextAndVideo => "TextAndVideo",
    }
}

/// The kind a list filter names: `text`, `image`, `video`,
/// `text_and_image` or `text_and_video`.
pub open spec fn spec_post_type_filter(s: Seq<char>) -> Option<PostType> {
    if s == "text"@ {
        Some(PostType::Text)
    } else if s == "image"@ {
        Some(PostType::Image)
    } else if s == "video"@ {
        Some(PostType::Video)
    } else if s == "text_and_image"@ {
        Some(PostType::TextAndImage)
    } else if s == "text_and_video"@ {
        Some(PostType::TextAndVideo)
    } else {
        None
    }
}

/// Reads a list filter's kind; any other name is refused.
pub fn parse_post_type_filter(s: &str) -> (r: Result<PostType, AppError>)
    ensures
        match spec_post_type_filter(s@) {
            Some(t) => r == Ok::<PostType, AppError>(t),
            None => r matches Err(e) && is_validation_error(e, "Invalid post_type"@),
        },
{
    if str_eq(s, "text") {
        Ok(PostType::Text)
    } else if str_eq(s, "image") {
        Ok(PostType::Image)
    } else if str_eq(s, "video") {
        Ok(PostType::Video)
    } else if str_eq(s, "text_and_image") {
        Ok(PostType::TextAndImage)
    } else if str_eq(s, "text_and_video") {
        Ok(PostType::TextAndVideo)
    } else {
        Err(validation("Invalid post_type"))
    }
}

/// An uploaded caption is kept only when it is not blank.
pub fn keep_caption(text: String) -> (r: Option<String>)
    ensures
        is_blank(text@) ==> r is None,
        !is_blank(text@) ==> r == Some(text),
{
    if blank(text.as_str()) {
        None
    } else {
        Some(text)
    }
}

/// The kind of post an upload makes: a video (with or without an image)
/// makes a video post, with text when there is a caption or also an image;
/// an image alone makes an image post, with text when there is a caption;
/// otherwise a text post.
pub open spec fn spec_post_kind(has_caption: bool, has_image: bool, has_video: bool) -> PostType {
    if has_video {
        if has_caption || has_image { PostType::TextAndVideo } else { PostType::Video }
    } else if has_image {
        if has_caption { PostType::TextAndImage } else { PostType::Image }
    } else {
        PostType::Text
    }
}

/// Decides an upload: the author's id and name must not be blank, and it
/// must carry a caption, an image or a video; the result is the kind of
/// post it makes.
pub fn decide_post(
    user_id: &str,
    user_name: &str,
    has_caption: bool,
    has_image: bool,
    has_video: bool,
) -> (r: Result<PostType, AppError>)
    ensures
        is_blank(user_id@) || is_blank(user_name@) ==> r == Err::<PostType, AppError>(AppError::InvalidUserData),
        !is_blank(user_id@) && !is_blank(user_name@) && !has_caption && !has_image && !has_video
            ==> (r matches Err(e) && is_validation_error(e, "Please add a caption, image, or video"@)),
        !is_blank(user_id@) && !is_blank(user_name@) && (has_caption || has_image || has_video)
            ==> r == Ok::<PostType, AppError>(spec_post_kind(has_caption, has_image, has_video)),
{
    if blank(user_id) || blank(user_name) {
        return Err(AppError::InvalidUserData);
    }
    if !has_caption && !has_image && !has_video {
        return Err(validation("Please add a caption, image, or video"));
    }
    if has_video {
        if has_caption || has_image { Ok(PostType::TextAndVideo) } else { Ok(PostType::Video) }
    } else if has_image {
        if has_caption { Ok(PostType::TextAndImage) } else { Ok(PostType::Image) }
    } else {
        Ok(PostType::Text)
    }
}

/// The media a new post is announced with.
pub fn media_label(has_image: bool, has_video: bool) -> (r: &'static str)
    ensures
        r@ == if has_video && has_image {
            "image_and_video"@
        } else if has_video {
            "video"@
        } else if has_image {
            "image"@
        } else {
            "text"@
        },
{
    proof {
        reveal_strlit("image_and_video");
        reveal_strlit("video");
        reveal_strlit("image");
        reveal_strlit("text");
    }
    if has_video && has_image {
        "image_and_video"
    } else if has_video {
        "video"
    } else if has_image {
        "image"
    } else {
        "text"
    }
}

/// The title a new post is announced with: `📱 New video post from Amina!`.
pub fn new_post_title(label: &str, user_name: &str) -> (s: String)
    ensures
        s@ == "📱 New "@ + label@ + " post from "@ + user_name@ + "!"@,
{
    let mut s = concat("📱 New ", label);
    s.append(" post from ");
    s.append(user_name);
    s.append("!");
    s
}

/// The number of bytes UTF-8 spends on a character.
pub open spec fn utf8_len(c: char) -> nat {
    if (c as u32) < 0x80 { 1 } else if (c as u32) < 0x800 { 2 } else if (c as u32) < 0x10000 { 3 } else { 4 }
}

/// The number of bytes UTF-8 spends on a string.
pub open spec fn byte_len(s: Seq<char>) -> nat
    decreases s.len(),
{
    if s.len() == 0 { 0 } else { byte_len(s.drop_last()) + utf8_len(s.last()) }
}

fn char_bytes(c: char) -> (n: usize)
    ensures
        n == utf8_len(c),
{
    if (c as u32) < 0x80 { 1 } else if (c as u32) < 0x800 { 2 } else if (c as u32) < 0x10000 { 3 } else { 4 }
}

/// A string whose first `n` bytes end on a character boundary (or which is
/// no longer than `n` bytes).
pub open spec fn cuts_cleanly(s: Seq<char>, n: nat) -> bool {
    byte_len(s) <= n || exists|k: int| 0 <= k <= s.len() && byte_len(#[trigger] s.take(k)) == n
}

proof fn lemma_byte_len_take_grows(s: Seq<char>, j: int, k: int)
    requires
        0 <= j < k <= s.len(),
    ensures
        byte_len(s.take(j)) < byte_len(s.take(k)),
    decreases k - j,
{
    assert(s.take(k).drop_last() =~= s.take(k - 1));
    if j < k - 1 {
        lemma_byte_len_take_grows(s, j, k - 1);
    }
}

/// The first `n` bytes of a text followed by `...` when it is longer than
/// `n` bytes, the whole text otherwise.
pub(crate) fn preview_bytes(text: &str, n: usize) -> (p: String)
    requires
        cuts_cleanly(text@, n as nat),
        n <= 1_000_000,
    ensures
        byte_len(text@) <= n ==> p@ == text@,
        byte_len(text@) > n ==> exists|k: int| 0 <= k <= text@.len() && byte_len(text@.take(k)) == n
            && p@ == text@.take(k) + "..."@,
{
    let len = text.unicode_len();
    let mut bytes: usize = 0;
    let mut i: usize = 0;
    let mut out = String::new();
    while i < len && bytes < n
        invariant
            len == text@.len(),
            n <= 1_000_000,
            i <= len,
            bytes == byte_len(text@.take(i as int)),
            out@ == text@.take(i as int),
            i > 0 ==> byte_len(text@.take(i - 1)) < n,
            bytes <= n + 3,
        decreases len - i,
    {
        let c = text.get_char(i);
        proof {
            assert(text@.take(i + 1).drop_last() =~= text@.take(i as int));
        }
        bytes = bytes + char_bytes(c);
        out.push(c);
        proof {
            assert(out@ =~= text@.take(i + 1));
        }
        i = i + 1;
    }
    proof {
        assert(text@.take(len as int) =~= text@);
    }
    if i == len && bytes <= n {
        return out;
    }
    proof {
        if i < len {
            lemma_byte_len_take_grows(text@, i as int, len as int);
        }
        assert(byte_len(text@) > n);
        let k = choose|k: int| 0 <= k <= text@.len() && byte_len(#[trigger] text@.take(k)) == n;
        if k < i {
            if k < i - 1 {
                lemma_byte_len_take_grows(text@, k, i - 1);
            }
            assert(false);
        }
        if k > i {
            lemma_byte_len_take_grows(text@, i as int, k);
            assert(false);
        }
        assert(k == i);
    }
    out.append("...");
    out
}

/// The preview a new post is announced with: its caption, cut to its
/// first 50 bytes followed by `...` when it is longer.
pub fn post_preview(caption: &str) -> (p: String)
    requires
        cuts_cleanly(caption@, 50),
    ensures
        byte_len(caption@) <= 50 ==> p@ == caption@,
        byte_len(caption@) > 50 ==> exists|k: int| 0 <= k <= caption@.len() && byte_len(caption@.take(k)) == 50
            && p@ == caption@.take(k) + "..."@,
{
    preview_bytes(caption, 50)
}

/// The page a list shows when none is asked for.
pub const DEFAULT_PAGE_SIZE: i64 = 20;

/// The largest page a list shows.
pub const MAX_PAGE_SIZE: i64 = 100;

/// Paging parameters of a post list.
#[derive(Debug, Clone)]
pub struct PaginationParams {
    pub page: Option<i64>,
    pub limit: Option<i64>,
    pub user_id: Option<String>,
    pub post_type: Option<String>,
}

/// Search parameters of a post list.
#[derive(Debug, Clone)]
pub struct SearchParams {
    pub q: Option<String>,
    pub user_id: Option<String>,
    pub post_type: Option<String>,
    pub start_date: Option<String>,
    pub end_date: Option<String>,
    pub page: Option<i64>,
    pub limit: Option<i64>,
}

/// Where a list page starts and how long it is: page 1 or later (1 when
/// none is asked for), a length between 1 and `MAX_PAGE_SIZE`
/// (`DEFAULT_PAGE_SIZE` when none is asked for), and the number of items
/// skipped before it.
#[derive(Debug, Clone, Copy, PartialEq, Eq, Structural)]
pub struct Page {
    pub page: i64,
    pub limit: i64,
    pub skip: i128,
}

/// The page a request asks for.
pub open spec fn spec_page(page: Option<i64>, limit: Option<i64>) -> Page {
    let p = match page {
        Some(x) => if x < 1 { 1 } else { x },
        None => 1,
    };
    let l0 = match limit {
        Some(x) => x,
        None => DEFAULT_PAGE_SIZE,
    };
    let l = if l0 > MAX_PAGE_SIZE { MAX_PAGE_SIZE } else if l0 < 1 { 1 } else { l0 };
    Page { page: p, limit: l, skip: ((p - 1) * l) as i128 }
}

/// The page a request asks for.
pub fn page_of(page: Option<i64>, limit: Option<i64>) -> (r: Page)
    ensures
        r == spec_page(page, limit),
        1 <= r.page,
        1 <= r.limit <= MAX_PAGE_SIZE,
{
    let p: i64 = match page {
        Some(x) => if x < 1 { 1 } else { x },
        None => 1,
    };
    let l0: i64 = match limit {
        Some(x) => x,
        None => DEFAULT_PAGE_SIZE,
    };
    let l: i64 = if l0 > MAX_PAGE_SIZE { MAX_PAGE_SIZE } else if l0 < 1 { 1 } else { l0 };
    proof {
        assert(0 <= (p - 1) * l <= 0x7fff_ffff_ffff_ffff * 100) by (nonlinear_arith)
            requires 1 <= p <= 0x7fff_ffff_ffff_ffff, 1 <= l <= 100;
    }
    let skip: i128 = (p as i128 - 1) * (l as i128);
    Page { page: p, limit: l, skip }
}

/// The figures of a list page.
#[derive(Debug, Clone, Copy, PartialEq, Eq, Structural)]
pub struct PageInfo {
    pub page: i64,
    pub limit: i64,
    pub total_count: i64,
    pub total_pages: i64,
    pub has_next: bool,
    pub has_previous: bool,
}

/// The number of pages of `limit` items that hold `total` items.
pub open spec fn pages_for(total: int, limit: int) -> int {
    (total + limit - 1) / limit
}

/// The figures of page `p` of a list of `total_count` items.
pub fn page_info(p: Page, total_count: i64) -> (r: PageInfo)
    requires
        total_count >= 0,
        1 <= p.limit,
    ensures
        r.page == p.page,
        r.limit == p.limit,
        r.total_count == total_count,
        r.total_pages == pages_for(total_count as int, p.limit as int),
        r.total_pages * p.limit >= total_count,
        (r.total_pages - 1) * p.limit < total_count || total_count == 0,
        r.has_next == (p.page < r.total_pages),
        r.has_previous == (p.page > 1),
{
    let ghost t = total_count as int;
    let ghost l = p.limit as int;
    let ghost q = (t + l - 1) / l;
    proof {
        assert(q * l <= t + l - 1 && t + l - 1 < q * l + l) by (nonlinear_arith)
            requires l >= 1, q == (t + l - 1) / l;
        assert(0 <= q <= t) by (nonlinear_arith)
            requires l >= 1, t >= 0, q * l <= t + l - 1, t + l - 1 < q * l + l;
        assert((q - 1) * l == q * l - l) by (nonlinear_arith);
    }
    let num: i128 = total_count as i128 + p.limit as i128 - 1;
    let quot: i128 = num / (p.limit as i128);
    assert(quot == q);
    let pages: i64 = quot as i64;
    PageInfo {
        page: p.page,
        limit: p.limit,
        total_count,
        total_pages: pages,
        has_next: p.page < pages,
        has_previous: p.page > 1,
    }
}

/// Looks up a post by id: a malformed id and a missing post both read as
/// "post not found".
pub fn check_post_found(post_id: &str, found: bool) -> (r: Result<(), AppError>)
    ensures
        r is Ok <==> (is_object_id(post_id@) && found),
        r is Err ==> r == Err::<(), AppError>(AppError::PostNotFound),
{
    if check_object_id(post_id).is_err() || !found {
        return Err(AppError::PostNotFound);
    }
    Ok(())
}

/// A new caption and who asks for it.
#[derive(Debug, Clone)]
pub struct UpdateCaptionRequest {
    pub caption: String,
    pub user_id: String,
}

/// Who asks to delete every post of a user.
#[derive(Debug, Clone)]
pub struct DeletePostsByUserRequest {
    pub requesting_user_id: String,
}

/// Who likes or unlikes, or asks to delete a post.
#[derive(Debug, Clone)]
pub struct LikeRequestWithUser {
    pub user_id: String,
    pub user_name: Option<String>,
}

/// Decides a change to a post (an edit when `edit`, else a deletion) asked
/// for by `requester`, given the post's author (`None`: no such post): the
/// post must exist under a well-formed id, and only its author may change
/// it.
pub fn decide_post_change(post_id: &str, author: &Option<String>, requester: &str, edit: bool) -> (r: Result<(), AppError>)
    ensures
        !is_object_id(post_id@) || author is None ==> r == Err::<(), AppError>(AppError::PostNotFound),
        is_object_id(post_id@) && author is Some && author->0@ != requester@ ==> (r matches Err(e)
            && is_validation_error(e, if edit { "You can only edit your own posts"@ } else { "You can only delete your own posts"@ })),
        is_object_id(post_id@) && author is Some && author->0@ == requester@ ==> r is Ok,
{
    match check_post_found(post_id, author.is_some()) {
        Err(e) => return Err(e),
        Ok(()) => {},
    }
    let a = match author {
        Some(a) => a,
        None => return Err(AppError::PostNotFound),
    };
    if !str_eq(a.as_str(), requester) {
        if edit {
            return Err(validation("You can only edit your own posts"));
        } else {
            return Err(validation("You can only delete your own posts"));
        }
    }
    Ok(())
}

/// Decides a request to delete every post of `user_id`: only that user may
/// ask.
pub fn decide_bulk_deletion(user_id: &str, req: &DeletePostsByUserRequest) -> (r: Result<(), AppError>)
    ensures
        req.requesting_user_id@ != user_id@ ==> (r matches Err(e) && is_validation_error(e, "You can only delete your own posts"@)),
        req.requesting_user_id@ == user_id@ ==> r is Ok,
{
    if !str_eq(req.requesting_user_id.as_str(), user_id) {
        return Err(validation("You can only delete your own posts"));
    }
    Ok(())
}

/// Decides a request for a post's video, given whether the post (found
/// under a well-formed id) has one (`None`: no such post).
pub fn decide_video_access(post_id: &str, has_video: Option<bool>) -> (r: Result<(), AppError>)
    ensures
        !is_object_id(post_id@) || has_video is None ==> r == Err::<(), AppError>(AppError::PostNotFound),
        is_object_id(post_id@) && has_video == Some(false) ==> (r matches Err(e) && is_validation_error(e, "This post has no video"@)),
        is_object_id(post_id@) && has_video == Some(true) ==> r is Ok,
{
    match check_post_found(post_id, has_video.is_some()) {
        Err(e) => return Err(e),
        Ok(()) => {},
    }
    if has_video != Some(true) {
        return Err(validation("This post has no video"));
    }
    Ok(())
}

/// The value of a string of decimal digits (0 for none).
pub open spec fn digits_value(s: Seq<char>) -> int
    decreases s.len(),
{
    if s.len() == 0 { 0 } else { digits_value(s.drop_last()) * 10 + (s.last() as int - '0' as int) }
}

/// A non-empty string of ASCII digits.
pub open spec fn all_digits(s: Seq<char>) -> bool {
    s.len() > 0 && forall|i: int| 0 <= i < s.len() ==> is_digit(#[trigger] s[i])
}

/// The integer a text spells: an optional `+` or `-` followed by at least
/// one decimal digit and nothing else.
pub open spec fn signed_decimal(s: Seq<char>) -> Option<int> {
    if s.len() > 0 && s[0] == '-' && all_digits(s.drop_first()) {
        Some(-digits_value(s.drop_first()))
    } else if s.len() > 0 && s[0] == '+' && all_digits(s.drop_first()) {
        Some(digits_value(s.drop_first()))
    } else if all_digits(s) {
        Some(digits_value(s))
    } else {
        None
    }
}

/// The integer a text spells, when it fits in an `i64`.
pub open spec fn spec_parse_i64(s: Seq<char>) -> Option<i64> {
    match signed_decimal(s) {
        Some(v) => if i64::MIN <= v <= i64::MAX { Some(v as i64) } else { None },
        None => None,
    }
}

proof fn lemma_digits_value_nonneg(s: Seq<char>)
    requires
        forall|i: int| 0 <= i < s.len() ==> is_digit(#[trigger] s[i]),
    ensures
        digits_value(s) >= 0,
    decreases s.len(),
{
    if s.len() > 0 {
        lemma_digits_value_nonneg(s.drop_last());
    }
}

/// A prefix of a string of digits is worth no more than the whole.
proof fn lemma_digits_value_prefix(s: Seq<char>, k: int)
    requires
        forall|i: int| 0 <= i < s.len() ==> is_digit(#[trigger] s[i]),
        0 <= k <= s.len(),
    ensures
        digits_value(s.take(k)) <= digits_value(s),
    decreases s.len(),
{
    if k < s.len() {
        assert(s.drop_last().take(k) =~= s.take(k));
        lemma_digits_value_prefix(s.drop_last(), k);
        lemma_digits_value_nonneg(s.drop_last());
    } else {
        assert(s.take(k) =~= s);
    }
}

/// Reads a text as an `i64` the way `str::parse::<i64>` documents it: an
/// optional `+` or `-` sign followed by decimal digits and nothing else,
/// refused when the value does not fit (see `spec_parse_i64`).
pub fn parse_i64(s: &str) -> (r: Option<i64>)
    ensures
        r == spec_parse_i64(s@),
{
    let n = s.unicode_len();
    if n == 0 {
        return None;
    }
    let c0 = s.get_char(0);
    let neg = c0 == '-';
    let start: usize = if c0 == '-' || c0 == '+' { 1 } else { 0 };
    if start == n {
        proof {
            assert(!all_digits(s@.drop_first()));
            assert(!is_digit(s@[0]));
        }
        return None;
    }
    let mut acc: i64 = 0;
    let mut i: usize = start;
    proof {
        assert(s@.subrange(start as int, start as int) =~= Seq::<char>::empty());
    }
    while i < n
        invariant
            n == s@.len(),
            start <= i <= n,
            start < n,
            c0 == s@[0],
            neg == (c0 == '-'),
            start == (if c0 == '-' || c0 == '+' { 1usize } else { 0usize }),
            forall|j: int| start <= j < i ==> is_digit(#[trigger] s@[j]),
            neg ==> acc == -digits_value(s@.subrange(start as int, i as int)),
            !neg ==> acc == digits_value(s@.subrange(start as int, i as int)),
        decreases n - i,
    {
        let c = s.get_char(i);
        let ghost pre = s@.subrange(start as int, i as int);
        let ghost next = s@.subrange(start as int, i + 1);
        proof {
            assert(next.drop_last() =~= pre);
            assert(next.last() == c);
        }
        if !('0' <= c && c <= '9') {
            proof {
                assert(!is_digit(s@[i as int]));
                if start == 1 {
                    assert(s@.drop_first()[i - 1] == s@[i as int]);
                    assert(!all_digits(s@.drop_first()));
                } else {
                    assert(!all_digits(s@));
                }
            }
            return None;
        }
        let d: i64 = (c as u32 - 48) as i64;
        let step = if neg {
            match acc.checked_mul(10) {
                None => None,
                Some(m) => m.checked_sub(d),
            }
        } else {
            match acc.checked_mul(10) {
                None => None,
                Some(m) => m.checked_add(d),
            }
        };
        match step {
            None => {
                proof {
                    lemma_digits_value_nonneg(pre);
                    assert(digits_value(next) == digits_value(pre) * 10 + d);
                    assert(digits_value(next) > i64::MAX || -digits_value(next) < i64::MIN);
                    let body = s@.subrange(start as int, n as int);
                    if forall|j: int| 0 <= j < body.len() ==> is_digit(#[trigger] body[j]) {
                        assert(body.take(i + 1 - start) =~= next);
                        lemma_digits_value_prefix(body, i + 1 - start);
                        if start == 1 {
                            assert(s@.drop_first() =~= body);
                        } else {
                            assert(s@ =~= body);
                        }
                    } else {
                        let j = choose|j: int| 0 <= j < body.len() && !is_digit(#[trigger] body[j]);
                        assert(body[j] == s@[start + j]);
                        if start == 1 {
                            assert(s@.drop_first() =~= body);
                        } else {
                            assert(s@ =~= body);
                        }
                    }
                }
                return None;
            },
            Some(v) => {
                acc = v;
            },
        }
        i = i + 1;
    }
    proof {
        let body = s@.subrange(start as int, n as int);
        if start == 1 {
            assert(s@.drop_first() =~= body);
            assert(all_digits(body));
        } else {
            assert(s@ =~= body);
            assert(all_digits(s@));
        }
    }
    Some(acc)
}

/// The instant an RFC 3339 date and time names, in milliseconds since the
/// epoch, as `chrono` reads it.
pub uninterp spec fn rfc3339_millis(s: Seq<char>) -> Option<i64>;

/// Calls `chrono::DateTime::parse_from_rfc3339` and reads the instant in
/// milliseconds since the epoch (`timestamp_millis`, after moving it to
/// UTC). The result is named `rfc3339_millis` of the text.
#[verifier::external_body]
fn parse_rfc3339(s: &str) -> (r: Option<i64>)
    ensures
        r == rfc3339_millis(s@),
{
    chrono::DateTime::parse_from_rfc3339(s).ok().map(|dt| dt.with_timezone(&chrono::Utc).timestamp_millis())
}

/// The earliest second `chrono` represents: the start of 1 January of the
/// year -262143, in seconds since the epoch.
pub const EARLIEST_EPOCH_SECS: i64 = -8_334_601_228_800;

/// The latest second `chrono` represents: the last second of 31 December
/// of the year 262142, in seconds since the epoch.
pub const LATEST_EPOCH_SECS: i64 = 8_210_266_876_799;

/// The instant `t` seconds after the epoch, in milliseconds, when `chrono`
/// can represent it: from its earliest to its latest day.
pub open spec fn epoch_seconds_millis(t: i64) -> Option<i64> {
    if EARLIEST_EPOCH_SECS <= t <= LATEST_EPOCH_SECS { Some((t * 1000) as i64) } else { None }
}

/// Calls `chrono::DateTime::from_timestamp(t, 0)` and reads the instant in
/// milliseconds. Its source splits `t` into a day and a second of the day
/// and succeeds exactly when the day lies between `NaiveDate::MIN` (1
/// January, year -262143) and `NaiveDate::MAX` (31 December, year 262142);
/// `timestamp_millis` then gives `t * 1000`.
#[verifier::external_body]
fn from_epoch_seconds(t: i64) -> (r: Option<i64>)
    ensures
        r == epoch_seconds_millis(t),
{
    chrono::DateTime::from_timestamp(t, 0).map(|d| d.timestamp_millis())
}

/// The instant an `If-Modified-Since` value names, in milliseconds: an RFC
/// 3339 date and time, or else a count of seconds since the epoch.
pub open spec fn spec_modified_since(h: Seq<char>) -> Option<i64> {
    match rfc3339_millis(h) {
        Some(ms) => Some(ms),
        None => match spec_parse_i64(h) {
            Some(t) => epoch_seconds_millis(t),
            None => None,
        },
    }
}

/// Reads an `If-Modified-Since` value (see `spec_modified_since`).
pub fn parse_if_modified_since(header_value: &str) -> (r: Option<i64>)
    ensures
        r == spec_modified_since(header_value@),
{
    match parse_rfc3339(header_value) {
        Some(ms) => Some(ms),
        None => match parse_i64(header_value) {
            Some(t) => from_epoch_seconds(t),
            None => None,
        },
    }
}

/// A post list asked for with `If-Modified-Since` is answered from the
/// client's cache when nothing matching was modified after that instant:
/// the answer then carries the instant in whole seconds (rounded down).
pub fn cached_answer(since_millis: Option<i64>, modified_after: u64) -> (r: Option<i64>)
    ensures
        r == (match since_millis {
            Some(ms) => if modified_after == 0 { Some(((ms as int) / 1000) as i64) } else { None::<i64> },
            None => None::<i64>,
        }),
{
    match since_millis {
        Some(ms) => if modified_after == 0 {
            Some(if ms >= 0 || ms % 1000 == 0 { ms / 1000 } else { ms / 1000 - 1 })
        } else {
            None
        },
        None => None,
    }
}

/// The creation-time bounds of a post search, in milliseconds. A bound
/// that does not read as RFC 3339 is dropped; when an end bound is set it
/// takes the place of the start bound, the two being kept under one key.
#[derive(Debug, Clone, Copy, PartialEq, Eq, Structural)]
pub struct SearchWindow {
    pub created_from: Option<i64>,
    pub created_to: Option<i64>,
}

/// The bound a date text sets, if any.
pub open spec fn date_bound(d: Option<String>) -> Option<i64> {
    match d {
        Some(t) => rfc3339_millis(t@),
        None => None,
    }
}

/// The creation-time bounds a search asks for (see `SearchWindow`).
pub fn search_window(q: &SearchParams) -> (w: SearchWindow)
    ensures
        w.created_to == date_bound(q.end_date),
        w.created_from == (if date_bound(q.end_date) is Some { None } else { date_bound(q.start_date) }),
{
    let from = match &q.start_date {
        Some(d) => parse_rfc3339(d.as_str()),
        None => None,
    };
    let to = match &q.end_date {
        Some(d) => parse_rfc3339(d.as_str()),
        None => None,
    };
    if to.is_some() {
        SearchWindow { created_from: None, created_to: to }
    } else {
        SearchWindow { created_from: from, created_to: None }
    }
}

} // verus!
