//! The files of a recording: their names, and how the temporary file of a part becomes its final
//! file.
use crate::downloader::HlsDownloader;
#[allow(unused_imports)]
use crate::text::{decimal, law_decimal_is_injective};
use crate::text::push_decimal;
use vstd::prelude::*;

verus! {

/// How the name of a part's file follows from the path of the recording.
#[derive(Debug, PartialEq)]
pub enum PartName {
    /// The path with this extension.
    Extension(String),
    /// The path with this file name.
    FileName(String),
}

pub enum PartNameView {
    Extension(Seq<char>),
    FileName(Seq<char>),
}

impl View for PartName {
    type V = PartNameView;

    open spec fn view(&self) -> PartNameView {
        match self {
            PartName::Extension(extension) => PartNameView::Extension(extension@),
            PartName::FileName(name) => PartNameView::FileName(name@),
        }
    }
}

/// The extension of a part's temporary file.
pub open spec fn temp_extension(part: nat) -> Seq<char> {
    "tmp"@ + decimal(part) + ".ts"@
}

/// The file name of a part behind the first, where `stem` is the recording's file name without
/// its extension.
pub open spec fn numbered_name(stem: Seq<char>, part: nat) -> Seq<char> {
    stem + "_part"@ + decimal(part) + ".mp4"@
}

/// The name of a part's final file.
pub open spec fn part_name(stem: Seq<char>, part: nat) -> PartNameView {
    if part == 1 {
        PartNameView::Extension("mp4"@)
    } else {
        PartNameView::FileName(numbered_name(stem, part))
    }
}

/// The extension of a part's temporary file.
pub fn temp_ts_extension(part_index: u32) -> (extension: String)
    ensures
        extension@ == temp_extension(part_index as nat),
{
    let mut extension: String = "tmp".to_string();
    push_decimal(&mut extension, part_index as u64);
    extension.append(".ts");
    extension
}

/// The name of a part's final file, where `file_stem` is the recording's file name without its
/// extension.
pub fn final_mp4_name(file_stem: &str, part_index: u32) -> (name: PartName)
    ensures
        name@ == part_name(file_stem@, part_index as nat),
{
    if part_index == 1 {
        PartName::Extension("mp4".to_string())
    } else {
        let mut name: String = file_stem.to_string();
        name.append("_part");
        push_decimal(&mut name, part_index as u64);
        name.append(".mp4");
        PartName::FileName(name)
    }
}

/// An argument of the converter.
#[derive(Debug, PartialEq)]
pub enum ConvertArg {
    Text(String),
    /// The path of the temporary file.
    TsPath,
    /// The path of the final file.
    Mp4Path,
}

pub enum ConvertArgView {
    Text(Seq<char>),
    TsPath,
    Mp4Path,
}

impl View for ConvertArg {
    type V = ConvertArgView;

    open spec fn view(&self) -> ConvertArgView {
        match self {
            ConvertArg::Text(text) => ConvertArgView::Text(text@),
            ConvertArg::TsPath => ConvertArgView::TsPath,
            ConvertArg::Mp4Path => ConvertArgView::Mp4Path,
        }
    }
}

/// Why a part was not converted.
#[derive(Debug, PartialEq)]
pub enum ConvertError {
    /// The converter could not be run, with this message.
    NotRun(String),
    /// The converter ran and reported failure.
    Failed,
}

impl ConvertError {
    /// The error's text.
    pub open spec fn text(&self) -> Seq<char> {
        match self {
            ConvertError::NotRun(message) => "运行 FFmpeg 失败: "@ + message@
                + "。请确保 FFmpeg 已安装并在 PATH 中。"@,
            ConvertError::Failed => "视频结构重整失败，请查看上方详细日志。"@,
        }
    }

    /// The error's text.
    pub fn message(&self) -> (message: String)
        ensures
            message@ == self.text(),
    {
        match self {
            ConvertError::NotRun(text) => {
                let mut message: String = "运行 FFmpeg 失败: ".to_string();
                message.append(text.as_str());
                message.append("。请确保 FFmpeg 已安装并在 PATH 中。");
                message
            },
            ConvertError::Failed => "视频结构重整失败，请查看上方详细日志。".to_string(),
        }
    }
}

/// The converter's arguments: new time stamps, both streams copied as they are, and a file that
/// can be played while it is read, written over what is there.
pub open spec fn convert_args() -> Seq<ConvertArgView> {
    seq![
        ConvertArgView::Text("-fflags"@),
        ConvertArgView::Text("+genpts+igndts"@),
        ConvertArgView::Text("-f"@),
        ConvertArgView::Text("mp4"@),
        ConvertArgView::Text("-i"@),
        ConvertArgView::TsPath,
        ConvertArgView::Text("-c:a"@),
        ConvertArgView::Text("copy"@),
        ConvertArgView::Text("-c:v"@),
        ConvertArgView::Text("copy"@),
        ConvertArgView::Text("-movflags"@),
        ConvertArgView::Text("+faststart+frag_keyframe+empty_moov"@),
        ConvertArgView::Text("-y"@),
        ConvertArgView::Mp4Path,
    ]
}

fn text_arg(text: &str) -> (arg: ConvertArg)
    ensures
        arg@ == ConvertArgView::Text(text@),
{
    ConvertArg::Text(text.to_string())
}

/// The converter's arguments.
pub fn ffmpeg_args() -> (args: Vec<ConvertArg>)
    ensures
        args@.map_values(|arg: ConvertArg| arg@) == convert_args(),
{
    let mut args: Vec<ConvertArg> = Vec::new();
    args.push(text_arg("-fflags"));
    args.push(text_arg("+genpts+igndts"));
    args.push(text_arg("-f"));
    args.push(text_arg("mp4"));
    args.push(text_arg("-i"));
    args.push(ConvertArg::TsPath);
    args.push(text_arg("-c:a"));
    args.push(text_arg("copy"));
    args.push(text_arg("-c:v"));
    args.push(text_arg("copy"));
    args.push(text_arg("-movflags"));
    args.push(text_arg("+faststart+frag_keyframe+empty_moov"));
    args.push(text_arg("-y"));
    args.push(ConvertArg::Mp4Path);
    assert(args@.map_values(|arg: ConvertArg| arg@) =~= convert_args());
    args
}

impl HlsDownloader {
    /// What running the converter came to: whether it reported success, or why it could not be
    /// run.
    pub fn convert_ts_to_mp4(&self, run: Result<bool, String>) -> (converted: Result<(), ConvertError>)
        ensures
            converted == match run {
                Ok(true) => Ok::<(), ConvertError>(()),
                Ok(false) => Err::<(), ConvertError>(ConvertError::Failed),
                Err(message) => Err::<(), ConvertError>(ConvertError::NotRun(message)),
            },
    {
        match run {
            Err(message) => Err(ConvertError::NotRun(message)),
            Ok(success) => if success {
                Ok(())
            } else {
                Err(ConvertError::Failed)
            },
        }
    }
}

/// The text of the error with which a recording returns when the room asks for a ticket.
pub fn ticketed_message() -> (message: &'static str)
    ensures
        message@ == "主播开启了门票/付费限制，已停止录制"@,
{
    "主播开启了门票/付费限制，已停止录制"
}

/// Two texts that differ in the middle differ as a whole.
proof fn lemma_same_frame(front: Seq<char>, a: Seq<char>, b: Seq<char>, back: Seq<char>)
    requires
        front + a + back == front + b + back,
    ensures
        a == b,
{
    let x = front + a + back;
    let y = front + b + back;
    assert(x.len() == front.len() + a.len() + back.len());
    assert(y.len() == front.len() + b.len() + back.len());
    assert(a.len() == b.len());
    assert(a =~= x.subrange(front.len() as int, (front.len() + a.len()) as int));
    assert(b =~= y.subrange(front.len() as int, (front.len() + b.len()) as int));
}

/// No part overwrites the temporary file of another part.
pub proof fn law_temp_files_differ(i: nat, j: nat)
    requires
        i != j,
    ensures
        temp_extension(i) != temp_extension(j),
{
    if temp_extension(i) == temp_extension(j) {
        lemma_same_frame("tmp"@, decimal(i), decimal(j), ".ts"@);
        law_decimal_is_injective(i, j);
    }
}

/// No part overwrites the final file of another part: the names of parts with different numbers
/// differ, also from the name of the first part, which is the stem with the extension `mp4`.
pub proof fn law_final_files_differ(stem: Seq<char>, i: nat, j: nat)
    requires
        i != j,
    ensures
        part_name(stem, i) != part_name(stem, j),
        i != 1 ==> numbered_name(stem, i) != stem + ".mp4"@,
{
    if numbered_name(stem, i) == numbered_name(stem, j) {
        lemma_same_frame(stem + "_part"@, decimal(i), decimal(j), ".mp4"@);
        law_decimal_is_injective(i, j);
    }
    reveal_strlit("_part");
    assert(numbered_name(stem, i).len() > (stem + ".mp4"@).len());
}

/// The temporary file of a part has the part's number between `tmp` and `.ts` as its extension. The
/// final file of the first part has the extension `mp4`; that of every other part is named by the
/// stem, `_part` and the part's number, whatever the stem is.
pub proof fn law_part_names(
    stem: &str,
    part_index: u32,
    extension: String,
    name: PartName,
)
    requires
        call_ensures(temp_ts_extension, (part_index,), extension),
        call_ensures(final_mp4_name, (stem, part_index), name),
    ensures
        extension@ == "tmp"@ + decimal(part_index as nat) + ".ts"@,
        part_index == 1 ==> (name matches PartName::Extension(text) && text@ == "mp4"@),
        part_index != 1 ==> (name matches PartName::FileName(text) && text@ == stem@ + "_part"@
            + decimal(part_index as nat) + ".mp4"@),
{
}

/// What running the converter came to is reported as it is: success, failure, or the reason why it
/// could not be run, which the error's text gives.
pub proof fn law_converter_reports(
    downloader: &HlsDownloader,
    run: Result<bool, String>,
    converted: Result<(), ConvertError>,
    error: ConvertError,
    message: String,
)
    requires
        call_ensures(HlsDownloader::convert_ts_to_mp4, (downloader, run), converted),
        call_ensures(ConvertError::message, (&error,), message),
    ensures
        converted is Ok <==> run == Ok::<bool, String>(true),
        run == Ok::<bool, String>(false) ==> converted->Err_0 == ConvertError::Failed,
        run matches Err(reason) ==> converted->Err_0 == ConvertError::NotRun(reason),
        error matches ConvertError::NotRun(reason) ==> message@ == "运行 FFmpeg 失败: "@ + reason@
            + "。请确保 FFmpeg 已安装并在 PATH 中。"@,
        error is Failed ==> message@ == "视频结构重整失败，请查看上方详细日志。"@,
{
}

} // verus!
