//! The image tool's request payload and response handling. A successful
//! response is searched, in the order of the parts of the first candidate,
//! for inline base64 image data (decoded and written to a file named by the
//! caller or synthesized from a timestamp) or, failing that, a remote file
//! reference; with neither, the whole parsed response is wrapped and
//! printed. Decoding failures are reported and scanning goes on. The
//! transport, the clock and the file write live in the application shell.

use vstd::prelude::*;

use crate::json::{
    compact, escape, escape_chars, jv, jv_mems, jv_seq, to_compact, Json, JsonV,
};
use crate::parse::{p_parse, parse_chars};
use crate::search::{body_text, is_success, opt_body_view, spec_fail_line1, spec_fail_line2};
use crate::text::{
    append_chars, chars_eq, dec_str, has_sub, slice_chars, str_to_chars, u64_to_dec,
};

verus! {

/// The endpoint of the image-generation API, with the credential embedded as
/// the `key` query parameter.
pub fn image_url(key: &Vec<char>) -> (r: Vec<char>)
    ensures
        r@
            == "https://generativelanguage.googleapis.com/v1beta/models/gemini-3-pro-image-preview:generateContent?key="@
            + key@,
{
    let mut url = str_to_chars(
        "https://generativelanguage.googleapis.com/v1beta/models/gemini-3-pro-image-preview:generateContent?key=",
    );
    append_chars(&mut url, key);
    url
}

/// The image request payload: the prompt as the one part of the one content,
/// and the normalized resolution tag in the generation configuration.
pub open spec fn spec_image_payload(prompt: Seq<char>, resolution: Seq<char>) -> Seq<char> {
    compact(
        JsonV::Obj(
            seq![
                (
                    "contents"@,
                    JsonV::Arr(
                        seq![
                            JsonV::Obj(
                                seq![
                                    (
                                        "parts"@,
                                        JsonV::Arr(
                                            seq![
                                                JsonV::Obj(
                                                    seq![("text"@, JsonV::Str(escape(prompt)))],
                                                ),
                                            ],
                                        ),
                                    ),
                                ],
                            ),
                        ],
                    ),
                ),
                (
                    "generationConfig"@,
                    JsonV::Obj(
                        seq![
                            (
                                "imageConfig"@,
                                JsonV::Obj(
                                    seq![("imageSize"@, JsonV::Str(escape(resolution)))],
                                ),
                            ),
                        ],
                    ),
                ),
            ],
        ),
    )
}

/// Build the image request body.
pub fn image_payload(prompt: &Vec<char>, resolution: &Vec<char>) -> (r: Vec<char>)
    ensures
        r@ == spec_image_payload(prompt@, resolution@),
{
    let mut text_obj: Vec<(Vec<char>, Json)> = Vec::new();
    text_obj.push((str_to_chars("text"), Json::Str(escape_chars(prompt))));
    assert(jv_mems(text_obj@) =~= seq![("text"@, JsonV::Str(escape(prompt@)))]);
    let mut parts_arr: Vec<Json> = Vec::new();
    parts_arr.push(Json::Obj(text_obj));
    let mut content_obj: Vec<(Vec<char>, Json)> = Vec::new();
    content_obj.push((str_to_chars("parts"), Json::Arr(parts_arr)));
    let mut contents_arr: Vec<Json> = Vec::new();
    contents_arr.push(Json::Obj(content_obj));
    let mut size_obj: Vec<(Vec<char>, Json)> = Vec::new();
    size_obj.push((str_to_chars("imageSize"), Json::Str(escape_chars(resolution))));
    assert(jv_mems(size_obj@) =~= seq![("imageSize"@, JsonV::Str(escape(resolution@)))]);
    let mut config_obj: Vec<(Vec<char>, Json)> = Vec::new();
    config_obj.push((str_to_chars("imageConfig"), Json::Obj(size_obj)));
    let mut top: Vec<(Vec<char>, Json)> = Vec::new();
    top.push((str_to_chars("contents"), Json::Arr(contents_arr)));
    top.push((str_to_chars("generationConfig"), Json::Obj(config_obj)));
    let obj = Json::Obj(top);
    proof {
        assert(jv_seq(parts_arr@) =~= seq![jv(parts_arr@[0])]);
        assert(jv_mems(content_obj@) =~= seq![("parts"@, jv(content_obj@[0].1))]);
        assert(jv_seq(contents_arr@) =~= seq![jv(contents_arr@[0])]);
        assert(jv_mems(config_obj@) =~= seq![("imageConfig"@, jv(config_obj@[0].1))]);
        assert(jv_mems(top@) =~= seq![
            ("contents"@, jv(top@[0].1)),
            ("generationConfig"@, jv(top@[1].1)),
        ]);
    }
    to_compact(&obj)
}

/// What a decoded base64 text stands for: the bytes, or nothing where the
/// text is not valid base64. The decoding is a pure function of the text.
pub uninterp spec fn b64_decode_of(s: Seq<char>) -> Option<Seq<u8>>;

/// Relies on base64's `Engine::decode` with the standard engine
/// `BASE64_STANDARD`: it computes a pure function of the input text, either
/// the decoded bytes or a decode error.
#[verifier::external_body]
fn b64_decode(data: &Vec<char>) -> (r: Result<Vec<u8>, String>)
    ensures
        match r {
            Ok(b) => b64_decode_of(data@) == Some(b@),
            Err(_) => b64_decode_of(data@) is None,
        },
{
    let s: String = data.iter().collect();
    match base64::Engine::decode(&base64::prelude::BASE64_STANDARD, s.as_bytes()) {
        Ok(b) => Ok(b),
        Err(e) => Err(format!("{}", e)),
    }
}

/// Lookup of a key among an object's members, first match, from index `i`.
pub open spec fn obj_get_from(o: Seq<(Seq<char>, JsonV)>, k: Seq<char>, i: nat) -> Option<JsonV>
    decreases o.len() - i,
{
    if i >= o.len() {
        Option::None
    } else if o[i as int].0 == k {
        Option::Some(o[i as int].1)
    } else {
        obj_get_from(o, k, i + 1)
    }
}

/// Lookup of a key in a JSON value: a member where the value is an object,
/// nothing otherwise.
pub open spec fn get_field(v: JsonV, k: Seq<char>) -> Option<JsonV> {
    match v {
        JsonV::Obj(o) => obj_get_from(o, k, 0),
        _ => Option::None,
    }
}

/// The content of a string value, if it is one.
pub open spec fn as_str(v: Option<JsonV>) -> Option<Seq<char>> {
    match v {
        Option::Some(JsonV::Str(s)) => Option::Some(s),
        _ => Option::None,
    }
}

/// A found value, or JSON null where there is none.
pub open spec fn or_null(v: Option<JsonV>) -> JsonV {
    match v {
        Option::Some(x) => x,
        Option::None => JsonV::Null,
    }
}

/// Executable field lookup.
fn get_field_exec<'a>(v: &'a Json, key: &Vec<char>) -> (r: Option<&'a Json>)
    ensures
        match r {
            Option::Some(f) => get_field(jv(*v), key@) == Option::Some(jv(*f)),
            Option::None => get_field(jv(*v), key@) is None,
        },
{
    match v {
        Json::Obj(o) => {
            let ghost mems = jv_mems(o@);
            let mut i: usize = 0;
            while i < o.len()
                invariant
                    i <= o@.len(),
                    mems == jv_mems(o@),
                    mems.len() == o@.len(),
                    jv(*v) == JsonV::Obj(mems),
                    get_field(jv(*v), key@) == obj_get_from(mems, key@, 0),
                    obj_get_from(mems, key@, 0) == obj_get_from(mems, key@, i as nat),
                decreases o@.len() - i,
            {
                if chars_eq(&o[i].0, key) {
                    assert(mems[i as int].0 == key@);
                    assert(obj_get_from(mems, key@, i as nat) == Option::Some(
                        mems[i as int].1,
                    ));
                    assert(mems[i as int].1 == jv(o@[i as int].1));
                    return Option::Some(&o[i].1);
                }
                assert(mems[i as int].0 != key@);
                i = i + 1;
            }
            assert(obj_get_from(mems, key@, i as nat) is None);
            Option::None
        },
        _ => Option::None,
    }
}

/// Executable lookup of a string-valued field.
fn get_str_field<'a>(v: &'a Json, key: &Vec<char>) -> (r: Option<&'a Vec<char>>)
    ensures
        match r {
            Option::Some(s) => as_str(get_field(jv(*v), key@)) == Option::Some(s@),
            Option::None => as_str(get_field(jv(*v), key@)) is None,
        },
{
    match get_field_exec(v, key) {
        Option::Some(f) => match f {
            Json::Str(s) => Option::Some(s),
            _ => Option::None,
        },
        Option::None => Option::None,
    }
}

/// A deep copy of a JSON value.
pub fn clone_json(v: &Json) -> (r: Json)
    ensures
        jv(r) == jv(*v),
    decreases *v,
{
    match v {
        Json::Null => Json::Null,
        Json::Bool(b) => Json::Bool(*b),
        Json::Num(s) => {
            let c = slice_chars(s, 0, s.len());
            assert(c@ =~= s@);
            Json::Num(c)
        },
        Json::Str(s) => {
            let c = slice_chars(s, 0, s.len());
            assert(c@ =~= s@);
            Json::Str(c)
        },
        Json::Arr(a) => {
            let mut out: Vec<Json> = Vec::new();
            clone_arr_into(a, 0, &mut out);
            assert(jv_seq(out@) =~= jv_seq(a@));
            Json::Arr(out)
        },
        Json::Obj(o) => {
            let mut out: Vec<(Vec<char>, Json)> = Vec::new();
            clone_mems_into(o, 0, &mut out);
            assert(jv_mems(out@) =~= jv_mems(o@));
            Json::Obj(out)
        },
    }
}

/// Append deep copies of the values of `a`, from index `i` on, to `out`.
fn clone_arr_into(a: &Vec<Json>, i: usize, out: &mut Vec<Json>)
    requires
        i <= a@.len(),
    ensures
        jv_seq(final(out)@) == jv_seq(old(out)@) + jv_seq(a@).skip(i as int),
    decreases a@, a@.len() - i,
{
    let ghost before = out@;
    if i < a.len() {
        let c = clone_json(&a[i]);
        out.push(c);
        assert(jv_seq(out@) =~= jv_seq(before).push(jv(a@[i as int])));
        clone_arr_into(a, i + 1, out);
        assert(jv_seq(out@) =~= jv_seq(before) + jv_seq(a@).skip(i as int));
    } else {
        assert(jv_seq(out@) =~= jv_seq(before) + jv_seq(a@).skip(i as int));
    }
}

/// Append deep copies of the members of `o`, from index `i` on, to `out`.
fn clone_mems_into(o: &Vec<(Vec<char>, Json)>, i: usize, out: &mut Vec<(Vec<char>, Json)>)
    requires
        i <= o@.len(),
    ensures
        jv_mems(final(out)@) == jv_mems(old(out)@) + jv_mems(o@).skip(i as int),
    decreases o@, o@.len() - i,
{
    let ghost before = out@;
    if i < o.len() {
        let key = slice_chars(&o[i].0, 0, o[i].0.len());
        assert(key@ =~= o@[i as int].0@);
        let c = clone_json(&o[i].1);
        out.push((key, c));
        assert(jv_mems(out@) =~= jv_mems(before).push((o@[i as int].0@, jv(o@[i as int].1))));
        clone_mems_into(o, i + 1, out);
        assert(jv_mems(out@) =~= jv_mems(before) + jv_mems(o@).skip(i as int));
    } else {
        assert(jv_mems(out@) =~= jv_mems(before) + jv_mems(o@).skip(i as int));
    }
}

/// The inline base64 text of a part, where the part has one.
pub open spec fn part_inline_data(p: JsonV) -> Option<Seq<char>> {
    match get_field(p, "inlineData"@) {
        Option::Some(d) => as_str(get_field(d, "data"@)),
        Option::None => Option::None,
    }
}

/// The MIME type of a part's inline data; "image/jpeg" where none is given.
pub open spec fn part_mime(p: JsonV) -> Seq<char> {
    match get_field(p, "inlineData"@) {
        Option::Some(d) => match as_str(get_field(d, "mimeType"@)) {
            Option::Some(m) => m,
            Option::None => "image/jpeg"@,
        },
        Option::None => "image/jpeg"@,
    }
}

/// The file reference of a part, where the part has one.
pub open spec fn part_file(p: JsonV) -> Option<JsonV> {
    get_field(p, "fileData"@)
}

/// What scanning the parts yields: decoded inline data, a file reference, or
/// nothing; `fails` counts the inline parts whose base64 did not decode
/// before the scan stopped.
pub enum ScanV {
    Saved { mime: Seq<char>, bytes: Seq<u8>, fails: nat },
    File { fd: JsonV, fails: nat },
    Nothing { fails: nat },
}

/// Add earlier decode failures to a scan result.
pub open spec fn scan_add(r: ScanV, n: nat) -> ScanV {
    match r {
        ScanV::Saved { mime, bytes, fails } => ScanV::Saved { mime, bytes, fails: (fails + n) as nat },
        ScanV::File { fd, fails } => ScanV::File { fd, fails: (fails + n) as nat },
        ScanV::Nothing { fails } => ScanV::Nothing { fails: (fails + n) as nat },
    }
}

/// Scan the parts from index `i`: inline data that decodes wins; a decode
/// failure is counted and the same part's file reference is still tried;
/// then the next part.
pub open spec fn scan_from(parts: Seq<JsonV>, i: nat) -> ScanV
    decreases parts.len() - i, 1int,
{
    if i >= parts.len() {
        ScanV::Nothing { fails: 0 }
    } else {
        let p = parts[i as int];
        match part_inline_data(p) {
            Option::Some(data) => match b64_decode_of(data) {
                Option::Some(bytes) => ScanV::Saved { mime: part_mime(p), bytes, fails: 0 },
                Option::None => scan_rest(parts, i, 1),
            },
            Option::None => scan_rest(parts, i, 0),
        }
    }
}

/// After the inline attempt of part `i` (with `n` decode failures there):
/// its file reference, or the scan of the following parts.
pub open spec fn scan_rest(parts: Seq<JsonV>, i: nat, n: nat) -> ScanV
    decreases parts.len() - i, 0int,
{
    if i >= parts.len() {
        ScanV::Nothing { fails: n }
    } else {
        match part_file(parts[i as int]) {
            Option::Some(fd) => ScanV::File { fd, fails: n },
            Option::None => scan_add(scan_from(parts, i + 1), n),
        }
    }
}

/// Scan a whole response: the parts of the first candidate's content.
pub open spec fn image_scan(resp: JsonV) -> ScanV {
    match get_field(resp, "candidates"@) {
        Option::Some(JsonV::Arr(cands)) => if cands.len() > 0 {
            match get_field(cands[0], "content"@) {
                Option::Some(content) => match get_field(content, "parts"@) {
                    Option::Some(JsonV::Arr(parts)) => scan_from(parts, 0),
                    _ => ScanV::Nothing { fails: 0 },
                },
                Option::None => ScanV::Nothing { fails: 0 },
            }
        } else {
            ScanV::Nothing { fails: 0 }
        },
        _ => ScanV::Nothing { fails: 0 },
    }
}

/// The parsed response body; bodies that are not JSON stand for an error
/// object.
pub open spec fn parsed_body(t: Seq<char>) -> JsonV {
    match p_parse(t) {
        Option::Some(v) => v,
        Option::None => JsonV::Obj(seq![("error"@, JsonV::Str("Invalid JSON response"@))]),
    }
}

/// The extension derived from a MIME type.
pub open spec fn spec_ext(mime: Seq<char>) -> Seq<char> {
    if has_sub(mime, "png"@) {
        "png"@
    } else {
        "jpeg"@
    }
}

/// The output path: the caller's name, or one synthesized from the Unix
/// timestamp and the MIME-derived extension.
pub open spec fn spec_out_path(filename: Option<Seq<char>>, ts: nat, mime: Seq<char>) -> Seq<
    char,
> {
    match filename {
        Option::Some(f) => f,
        Option::None => "image_"@ + dec_str(ts) + seq!['.'] + spec_ext(mime),
    }
}

/// The success message printed after an image file is written.
pub open spec fn spec_saved_msg(mime: Seq<char>, resolution: Seq<char>, path: Seq<char>) -> Seq<
    char,
> {
    compact(
        JsonV::Obj(
            seq![
                ("file_path"@, JsonV::Str(escape(path))),
                ("message"@, JsonV::Str("Image generated and saved."@)),
                ("mime_type"@, JsonV::Str(mime)),
                ("resolution"@, JsonV::Str(escape(resolution))),
                ("status"@, JsonV::Str("success"@)),
            ],
        ),
    )
}

/// The success message printed for a remote file reference.
pub open spec fn spec_file_msg(fd: JsonV) -> Seq<char> {
    compact(
        JsonV::Obj(
            seq![
                ("file_uri"@, or_null(get_field(fd, "fileUri"@))),
                ("message"@, JsonV::Str("Image generated (file)."@)),
                ("mime_type"@, or_null(get_field(fd, "mimeType"@))),
                ("status"@, JsonV::Str("success"@)),
            ],
        ),
    )
}

/// The fallback output where no image was found: the whole parsed response
/// wrapped under "output".
pub open spec fn spec_output_msg(resp: JsonV) -> Seq<char> {
    compact(JsonV::Obj(seq![("output"@, resp)]))
}

/// A reported decode failure: the fixed prefix, then the decoder's words.
pub open spec fn decode_error_line(line: Seq<char>) -> bool {
    line.len() >= "Error decoding base64: "@.len() && line.subrange(
        0,
        "Error decoding base64: "@.len() as int,
    ) == "Error decoding base64: "@
}

/// What the image tool does once the response is in.
pub enum ImageOutcome {
    /// Write `bytes` to `path`, print `message` on standard output, exit
    /// zero; the decode failures seen on the way go to the error stream.
    SaveFile {
        path: Vec<char>,
        bytes: Vec<u8>,
        message: Vec<char>,
        decode_errors: Vec<Vec<char>>,
    },
    /// Print `message` on standard output and exit zero.
    Print { message: Vec<char>, decode_errors: Vec<Vec<char>> },
    /// Print these two lines on the error stream and exit non-zero.
    Fail { line1: Vec<char>, line2: Vec<char> },
}

/// The output path, executably.
fn out_path_exec(filename: &Option<Vec<char>>, ts: u64, mime: &Vec<char>) -> (r: Vec<char>)
    ensures
        r@ == spec_out_path(crate::resolution::opt_chars_view(*filename), ts as nat, mime@),
{
    match filename {
        Option::Some(f) => {
            let c = slice_chars(f, 0, f.len());
            assert(c@ =~= f@);
            c
        },
        Option::None => {
            let mut p = str_to_chars("image_");
            let digits = u64_to_dec(ts);
            append_chars(&mut p, &digits);
            p.push('.');
            let e = if crate::text::contains_sub(mime, &str_to_chars("png")) {
                str_to_chars("png")
            } else {
                str_to_chars("jpeg")
            };
            append_chars(&mut p, &e);
            assert(p@ =~= "image_"@ + dec_str(ts as nat) + seq!['.'] + spec_ext(mime@));
            p
        },
    }
}

/// The saved-image success message, executably.
fn saved_msg_exec(mime: &Vec<char>, resolution: &Vec<char>, path: &Vec<char>) -> (r: Vec<char>)
    ensures
        r@ == spec_saved_msg(mime@, resolution@, path@),
{
    let mut m: Vec<(Vec<char>, Json)> = Vec::new();
    m.push((str_to_chars("file_path"), Json::Str(escape_chars(path))));
    m.push((str_to_chars("message"), Json::Str(str_to_chars("Image generated and saved."))));
    let mime_copy = slice_chars(mime, 0, mime.len());
    assert(mime_copy@ =~= mime@);
    m.push((str_to_chars("mime_type"), Json::Str(mime_copy)));
    m.push((str_to_chars("resolution"), Json::Str(escape_chars(resolution))));
    m.push((str_to_chars("status"), Json::Str(str_to_chars("success"))));
    let o = Json::Obj(m);
    assert(jv_mems(m@) =~= seq![
        ("file_path"@, JsonV::Str(escape(path@))),
        ("message"@, JsonV::Str("Image generated and saved."@)),
        ("mime_type"@, JsonV::Str(mime@)),
        ("resolution"@, JsonV::Str(escape(resolution@))),
        ("status"@, JsonV::Str("success"@)),
    ]);
    to_compact(&o)
}

/// The file-reference success message, executably.
fn file_msg_exec(fd: &Json) -> (r: Vec<char>)
    ensures
        r@ == spec_file_msg(jv(*fd)),
{
    let uri = match get_field_exec(fd, &str_to_chars("fileUri")) {
        Option::Some(u) => clone_json(u),
        Option::None => Json::Null,
    };
    assert(jv(uri) == or_null(get_field(jv(*fd), "fileUri"@)));
    let mt = match get_field_exec(fd, &str_to_chars("mimeType")) {
        Option::Some(u) => clone_json(u),
        Option::None => Json::Null,
    };
    assert(jv(mt) == or_null(get_field(jv(*fd), "mimeType"@)));
    let ghost uriv = jv(uri);
    let ghost mtv = jv(mt);
    let mut m: Vec<(Vec<char>, Json)> = Vec::new();
    m.push((str_to_chars("file_uri"), uri));
    m.push((str_to_chars("message"), Json::Str(str_to_chars("Image generated (file)."))));
    m.push((str_to_chars("mime_type"), mt));
    m.push((str_to_chars("status"), Json::Str(str_to_chars("success"))));
    let o = Json::Obj(m);
    assert(jv_mems(m@) =~= seq![
        ("file_uri"@, uriv),
        ("message"@, JsonV::Str("Image generated (file)."@)),
        ("mime_type"@, mtv),
        ("status"@, JsonV::Str("success"@)),
    ]);
    to_compact(&o)
}

/// The fallback message around the parsed response, executably.
fn output_msg_exec(parsed: &Json) -> (r: Vec<char>)
    ensures
        r@ == spec_output_msg(jv(*parsed)),
{
    let mut wrap: Vec<(Vec<char>, Json)> = Vec::new();
    wrap.push((str_to_chars("output"), clone_json(parsed)));
    let o = Json::Obj(wrap);
    assert(jv_mems(wrap@) =~= seq![("output"@, jv(*parsed))]);
    to_compact(&o)
}

/// The parts of the first candidate's content, where the response has them;
/// where it does not, the scan yields nothing.
fn get_parts<'a>(parsed: &'a Json) -> (r: Option<&'a Vec<Json>>)
    ensures
        match r {
            Option::Some(parts) => image_scan(jv(*parsed)) == scan_from(jv_seq(parts@), 0),
            Option::None => image_scan(jv(*parsed)) == (ScanV::Nothing { fails: 0 }),
        },
{
    match get_field_exec(parsed, &str_to_chars("candidates")) {
        Option::Some(c) => match c {
            Json::Arr(cands) => {
                if cands.len() > 0 {
                    assert(jv(*c) == JsonV::Arr(jv_seq(cands@)));
                    assert(jv_seq(cands@)[0] == jv(cands@[0]));
                    match get_field_exec(&cands[0], &str_to_chars("content")) {
                        Option::Some(content) => {
                            match get_field_exec(content, &str_to_chars("parts")) {
                                Option::Some(parts_val) => match parts_val {
                                    Json::Arr(parts) => {
                                        assert(jv(*parts_val) == JsonV::Arr(jv_seq(parts@)));
                                        Option::Some(parts)
                                    },
                                    _ => {
                                        assert(!(jv(*parts_val) is Arr));
                                        Option::None
                                    },
                                },
                                Option::None => Option::None,
                            }
                        },
                        Option::None => Option::None,
                    }
                } else {
                    Option::None
                }
            },
            _ => {
                assert(!(jv(*c) is Arr));
                Option::None
            },
        },
        Option::None => Option::None,
    }
}

/// Scan the parts in order, decoding inline data, and build the outcome.
fn scan_parts_exec(
    parsed: &Json,
    parts: &Vec<Json>,
    resolution: &Vec<char>,
    filename: &Option<Vec<char>>,
    now_secs: u64,
) -> (r: ImageOutcome)
    requires
        image_scan(jv(*parsed)) == scan_from(jv_seq(parts@), 0),
    ensures
        match image_scan(jv(*parsed)) {
            ScanV::Saved { mime, bytes, fails } => (r matches ImageOutcome::SaveFile {
                path,
                bytes: b,
                message,
                decode_errors,
            } && path@ == spec_out_path(
                crate::resolution::opt_chars_view(*filename),
                now_secs as nat,
                mime,
            ) && b@ == bytes && message@ == spec_saved_msg(mime, resolution@, path@)
                && decode_errors@.len() == fails && (forall|t: int|
                0 <= t < decode_errors@.len() ==> decode_error_line(
                    #[trigger] decode_errors@[t]@,
                ))),
            ScanV::File { fd, fails } => (r matches ImageOutcome::Print { message, decode_errors }
                && message@ == spec_file_msg(fd) && decode_errors@.len() == fails && (forall|
                t: int,
            |
                0 <= t < decode_errors@.len() ==> decode_error_line(
                    #[trigger] decode_errors@[t]@,
                ))),
            ScanV::Nothing { fails } => (r matches ImageOutcome::Print { message, decode_errors }
                && message@ == spec_output_msg(jv(*parsed)) && decode_errors@.len() == fails && (
            forall|t: int|
                0 <= t < decode_errors@.len() ==> decode_error_line(
                    #[trigger] decode_errors@[t]@,
                ))),
        },
{
    let ghost ps = jv_seq(parts@);
    let mut errors: Vec<Vec<char>> = Vec::new();
    let mut i: usize = 0;
    while i < parts.len()
        invariant
            i <= parts@.len(),
            ps == jv_seq(parts@),
            image_scan(jv(*parsed)) == scan_add(scan_from(ps, i as nat), errors@.len() as nat),
            forall|t: int|
                0 <= t < errors@.len() ==> decode_error_line(#[trigger] errors@[t]@),
        decreases parts@.len() - i,
    {
        let part = &parts[i];
        assert(ps[i as int] == jv(parts@[i as int]));
        let ghost fails0 = errors@.len() as nat;
        let ghost n_here: nat = match part_inline_data(ps[i as int]) {
            Option::Some(data) => if b64_decode_of(data) is None {
                1nat
            } else {
                0nat
            },
            Option::None => 0nat,
        };
        match get_field_exec(part, &str_to_chars("inlineData")) {
            Option::Some(d) => {
                match get_str_field(d, &str_to_chars("data")) {
                    Option::Some(data) => {
                        assert(part_inline_data(ps[i as int]) == Option::Some(data@));
                        match b64_decode(data) {
                            Result::Ok(bytes) => {
                                let mime = match get_str_field(d, &str_to_chars("mimeType")) {
                                    Option::Some(mv) => slice_chars(mv, 0, mv.len()),
                                    Option::None => str_to_chars("image/jpeg"),
                                };
                                assert(mime@ == part_mime(ps[i as int]));
                                assert(scan_from(ps, i as nat) == (ScanV::Saved {
                                    mime: mime@,
                                    bytes: bytes@,
                                    fails: 0nat,
                                }));
                                let path = out_path_exec(filename, now_secs, &mime);
                                let message = saved_msg_exec(&mime, resolution, &path);
                                return ImageOutcome::SaveFile {
                                    path,
                                    bytes,
                                    message,
                                    decode_errors: errors,
                                };
                            },
                            Result::Err(e) => {
                                let mut line = str_to_chars("Error decoding base64: ");
                                let etext = str_to_chars(e.as_str());
                                append_chars(&mut line, &etext);
                                proof {
                                    assert(line@.subrange(
                                        0,
                                        "Error decoding base64: "@.len() as int,
                                    ) =~= "Error decoding base64: "@);
                                }
                                errors.push(line);
                            },
                        }
                    },
                    Option::None => {
                        assert(part_inline_data(ps[i as int]) is None);
                    },
                }
            },
            Option::None => {
                assert(part_inline_data(ps[i as int]) is None);
            },
        }
        assert(errors@.len() == fails0 + n_here);
        match get_field_exec(part, &str_to_chars("fileData")) {
            Option::Some(fd) => {
                assert(scan_from(ps, i as nat) == scan_rest(ps, i as nat, n_here));
                assert(scan_rest(ps, i as nat, n_here) == (ScanV::File {
                    fd: jv(*fd),
                    fails: n_here,
                }));
                let message = file_msg_exec(fd);
                return ImageOutcome::Print { message, decode_errors: errors };
            },
            Option::None => {
                assert(part_file(ps[i as int]) is None);
            },
        }
        proof {
            assert(scan_from(ps, i as nat) == scan_rest(ps, i as nat, n_here));
            assert(scan_rest(ps, i as nat, n_here) == scan_add(
                scan_from(ps, i as nat + 1),
                n_here,
            ));
            lemma_scan_add_add(scan_from(ps, i as nat + 1), n_here, fails0);
        }
        i = i + 1;
    }
    assert(scan_from(ps, i as nat) == (ScanV::Nothing { fails: 0nat }));
    let message = output_msg_exec(parsed);
    ImageOutcome::Print { message, decode_errors: errors }
}

/// Adding failure counts one after the other is adding them at once.
proof fn lemma_scan_add_add(x: ScanV, a: nat, b: nat)
    ensures
        scan_add(scan_add(x, a), b) == scan_add(x, (a + b) as nat),
{
}

/// Decide the image tool's whole behaviour from the status and body of the
/// response, the normalized resolution, the caller's optional filename and
/// the current Unix timestamp.
pub fn handle_image_response(
    status: u16,
    body: Option<Vec<char>>,
    resolution: &Vec<char>,
    filename: &Option<Vec<char>>,
    now_secs: u64,
) -> (r: ImageOutcome)
    ensures
        !is_success(status) ==> (r matches ImageOutcome::Fail { line1, line2 } && line1@
            == spec_fail_line1(status) && line2@ == spec_fail_line2(opt_body_view(body))),
        is_success(status) ==> match image_scan(parsed_body(body_text(opt_body_view(body)))) {
            ScanV::Saved { mime, bytes, fails } => (r matches ImageOutcome::SaveFile {
                path,
                bytes: b,
                message,
                decode_errors,
            } && path@ == spec_out_path(
                crate::resolution::opt_chars_view(*filename),
                now_secs as nat,
                mime,
            ) && b@ == bytes && message@ == spec_saved_msg(mime, resolution@, path@)
                && decode_errors@.len() == fails && (forall|t: int|
                0 <= t < decode_errors@.len() ==> decode_error_line(
                    #[trigger] decode_errors@[t]@,
                ))),
            ScanV::File { fd, fails } => (r matches ImageOutcome::Print { message, decode_errors }
                && message@ == spec_file_msg(fd) && decode_errors@.len() == fails && (forall|
                t: int,
            |
                0 <= t < decode_errors@.len() ==> decode_error_line(
                    #[trigger] decode_errors@[t]@,
                ))),
            ScanV::Nothing { fails } => (r matches ImageOutcome::Print { message, decode_errors }
                && message@ == spec_output_msg(parsed_body(body_text(opt_body_view(body))))
                && decode_errors@.len() == fails && (forall|t: int|
                0 <= t < decode_errors@.len() ==> decode_error_line(
                    #[trigger] decode_errors@[t]@,
                ))),
        },
{
    if !(200 <= status && status < 300) {
        let (line1, line2) = crate::search::http_failure_lines(status, &body);
        return ImageOutcome::Fail { line1, line2 };
    }
    let t = match body {
        Option::Some(b) => b,
        Option::None => Vec::new(),
    };
    let parsed: Json = match parse_chars(&t) {
        Option::Some(j) => j,
        Option::None => {
            let mut err_obj: Vec<(Vec<char>, Json)> = Vec::new();
            err_obj.push((str_to_chars("error"), Json::Str(str_to_chars(
                "Invalid JSON response",
            ))));
            assert(jv_mems(err_obj@) =~= seq![("error"@, JsonV::Str("Invalid JSON response"@))]);
            Json::Obj(err_obj)
        },
    };
    assert(jv(parsed) == parsed_body(body_text(opt_body_view(body))));
    match get_parts(&parsed) {
        Option::Some(parts) => scan_parts_exec(&parsed, parts, resolution, filename, now_secs),
        Option::None => {
            let message = output_msg_exec(&parsed);
            ImageOutcome::Print { message, decode_errors: Vec::new() }
        },
    }
}

} // verus!
