//! The stable lower-case keys and the labels that the front end sees in
//! place of enum variants, and how its texts are read back.

use vstd::prelude::*;
use crate::model::{ExecutionStatus, FileCategory, FileOperationKind, FileRiskLevel, OrganizationMode};
use crate::platform::category_key;
use crate::text::text_is;

verus! {

broadcast use crate::text::lemma_chars_deep_view;

/// The Chinese label of a category.
pub open spec fn category_label(c: FileCategory) -> Seq<char> {
    match c {
        FileCategory::Documents => "文档"@,
        FileCategory::Images => "图片"@,
        FileCategory::Videos => "视频"@,
        FileCategory::Audio => "音频"@,
        FileCategory::Archives => "压缩包"@,
        FileCategory::Installers => "安装包"@,
        FileCategory::Code => "代码"@,
        FileCategory::Spreadsheets => "表格"@,
        FileCategory::Presentations => "演示文稿"@,
        FileCategory::Pdf => "PDF"@,
        FileCategory::Other => "其他"@,
    }
}

/// The Chinese label of a category.
pub fn category_label_of(c: &FileCategory) -> (r: &'static str)
    ensures
        r@ == category_label(*c),
{
    match c {
        FileCategory::Documents => "文档",
        FileCategory::Images => "图片",
        FileCategory::Videos => "视频",
        FileCategory::Audio => "音频",
        FileCategory::Archives => "压缩包",
        FileCategory::Installers => "安装包",
        FileCategory::Code => "代码",
        FileCategory::Spreadsheets => "表格",
        FileCategory::Presentations => "演示文稿",
        FileCategory::Pdf => "PDF",
        FileCategory::Other => "其他",
    }
}

/// The category a text names: its key, its variant name or its label.
pub open spec fn category_named(v: Seq<char>) -> Option<FileCategory> {
    if v == "documents"@ || v == "Documents"@ || v == "文档"@ {
        Some(FileCategory::Documents)
    } else if v == "images"@ || v == "Images"@ || v == "图片"@ {
        Some(FileCategory::Images)
    } else if v == "videos"@ || v == "Videos"@ || v == "视频"@ {
        Some(FileCategory::Videos)
    } else if v == "audio"@ || v == "Audio"@ || v == "音频"@ {
        Some(FileCategory::Audio)
    } else if v == "archives"@ || v == "Archives"@ || v == "压缩包"@ {
        Some(FileCategory::Archives)
    } else if v == "installers"@ || v == "Installers"@ || v == "安装包"@ {
        Some(FileCategory::Installers)
    } else if v == "code"@ || v == "Code"@ || v == "代码"@ {
        Some(FileCategory::Code)
    } else if v == "spreadsheets"@ || v == "Spreadsheets"@ || v == "表格"@ {
        Some(FileCategory::Spreadsheets)
    } else if v == "presentations"@ || v == "Presentations"@ || v == "演示文稿"@ {
        Some(FileCategory::Presentations)
    } else if v == "pdf"@ || v == "Pdf"@ || v == "PDF"@ {
        Some(FileCategory::Pdf)
    } else if v == "other"@ || v == "Other"@ || v == "其他"@ {
        Some(FileCategory::Other)
    } else {
        None
    }
}

/// Reads a category from a key, a variant name or a label.
pub fn parse_category(value: &str) -> (r: Result<FileCategory, String>)
    ensures
        match category_named(value@) {
            Some(c) => r == Ok::<FileCategory, String>(c),
            None => r matches Err(m) && m@ == "unsupported category: "@ + value@,
        },
{
    let v = crate::text::chars_of(value);
    if text_is(&v, "documents") || text_is(&v, "Documents") || text_is(&v, "文档") {
        Ok(FileCategory::Documents)
    } else if text_is(&v, "images") || text_is(&v, "Images") || text_is(&v, "图片") {
        Ok(FileCategory::Images)
    } else if text_is(&v, "videos") || text_is(&v, "Videos") || text_is(&v, "视频") {
        Ok(FileCategory::Videos)
    } else if text_is(&v, "audio") || text_is(&v, "Audio") || text_is(&v, "音频") {
        Ok(FileCategory::Audio)
    } else if text_is(&v, "archives") || text_is(&v, "Archives") || text_is(&v, "压缩包") {
        Ok(FileCategory::Archives)
    } else if text_is(&v, "installers") || text_is(&v, "Installers") || text_is(&v, "安装包") {
        Ok(FileCategory::Installers)
    } else if text_is(&v, "code") || text_is(&v, "Code") || text_is(&v, "代码") {
        Ok(FileCategory::Code)
    } else if text_is(&v, "spreadsheets") || text_is(&v, "Spreadsheets") || text_is(&v, "表格") {
        Ok(FileCategory::Spreadsheets)
    } else if text_is(&v, "presentations") || text_is(&v, "Presentations") || text_is(&v, "演示文稿") {
        Ok(FileCategory::Presentations)
    } else if text_is(&v, "pdf") || text_is(&v, "Pdf") || text_is(&v, "PDF") {
        Ok(FileCategory::Pdf)
    } else if text_is(&v, "other") || text_is(&v, "Other") || text_is(&v, "其他") {
        Ok(FileCategory::Other)
    } else {
        Err(String::from_str("unsupported category: ").concat(value))
    }
}

/// The lower-case key of a risk level.
pub open spec fn risk_label(r: FileRiskLevel) -> Seq<char> {
    match r {
        FileRiskLevel::Low => "low"@,
        FileRiskLevel::Medium => "medium"@,
        FileRiskLevel::High => "high"@,
    }
}

/// The lower-case key of a risk level.
pub fn risk_label_of(r: &FileRiskLevel) -> (s: &'static str)
    ensures
        s@ == risk_label(*r),
{
    match r {
        FileRiskLevel::Low => "low",
        FileRiskLevel::Medium => "medium",
        FileRiskLevel::High => "high",
    }
}

/// The risk level a text names; an empty text stands for low.
pub open spec fn risk_named(v: Seq<char>) -> Option<FileRiskLevel> {
    if v == ""@ || v == "low"@ || v == "Low"@ {
        Some(FileRiskLevel::Low)
    } else if v == "medium"@ || v == "Medium"@ {
        Some(FileRiskLevel::Medium)
    } else if v == "high"@ || v == "High"@ {
        Some(FileRiskLevel::High)
    } else {
        None
    }
}

/// Reads a risk level.
pub fn parse_risk(value: &str) -> (r: Result<FileRiskLevel, String>)
    ensures
        match risk_named(value@) {
            Some(k) => r == Ok::<FileRiskLevel, String>(k),
            None => r matches Err(m) && m@ == "unsupported risk: "@ + value@,
        },
{
    let v = crate::text::chars_of(value);
    if text_is(&v, "") || text_is(&v, "low") || text_is(&v, "Low") {
        Ok(FileRiskLevel::Low)
    } else if text_is(&v, "medium") || text_is(&v, "Medium") {
        Ok(FileRiskLevel::Medium)
    } else if text_is(&v, "high") || text_is(&v, "High") {
        Ok(FileRiskLevel::High)
    } else {
        Err(String::from_str("unsupported risk: ").concat(value))
    }
}

/// The key of an organization mode.
pub open spec fn mode_key(m: OrganizationMode) -> Seq<char> {
    match m {
        OrganizationMode::ByCategory => "by_category"@,
        OrganizationMode::ByExtension => "by_extension"@,
        OrganizationMode::Desktop => "desktop"@,
    }
}

/// The key of an organization mode.
pub fn mode_key_of(m: &OrganizationMode) -> (s: &'static str)
    ensures
        s@ == mode_key(*m),
{
    match m {
        OrganizationMode::ByCategory => "by_category",
        OrganizationMode::ByExtension => "by_extension",
        OrganizationMode::Desktop => "desktop",
    }
}

/// The organization mode a text names.
pub open spec fn mode_named(v: Seq<char>) -> Option<OrganizationMode> {
    if v == "by_category"@ || v == "category"@ || v == "ByCategory"@ {
        Some(OrganizationMode::ByCategory)
    } else if v == "by_extension"@ || v == "extension"@ || v == "ByExtension"@ {
        Some(OrganizationMode::ByExtension)
    } else if v == "desktop"@ || v == "Desktop"@ {
        Some(OrganizationMode::Desktop)
    } else {
        None
    }
}

/// Reads an organization mode.
pub fn parse_mode(value: &str) -> (r: Result<OrganizationMode, String>)
    ensures
        match mode_named(value@) {
            Some(m) => r == Ok::<OrganizationMode, String>(m),
            None => r matches Err(e) && e@ == "unsupported organization mode: "@ + value@,
        },
{
    let v = crate::text::chars_of(value);
    if text_is(&v, "by_category") || text_is(&v, "category") || text_is(&v, "ByCategory") {
        Ok(OrganizationMode::ByCategory)
    } else if text_is(&v, "by_extension") || text_is(&v, "extension") || text_is(&v, "ByExtension") {
        Ok(OrganizationMode::ByExtension)
    } else if text_is(&v, "desktop") || text_is(&v, "Desktop") {
        Ok(OrganizationMode::Desktop)
    } else {
        Err(String::from_str("unsupported organization mode: ").concat(value))
    }
}

/// The key of an execution status.
pub open spec fn execution_status_key(s: ExecutionStatus) -> Seq<char> {
    match s {
        ExecutionStatus::Completed => "completed"@,
        ExecutionStatus::PartiallyFailed => "partially_failed"@,
        ExecutionStatus::Rejected => "rejected"@,
    }
}

/// The key of an execution status.
pub fn execution_status_key_of(s: &ExecutionStatus) -> (r: &'static str)
    ensures
        r@ == execution_status_key(*s),
{
    match s {
        ExecutionStatus::Completed => "completed",
        ExecutionStatus::PartiallyFailed => "partially_failed",
        ExecutionStatus::Rejected => "rejected",
    }
}

/// The execution status a text names.
pub open spec fn execution_status_named(v: Seq<char>) -> Option<ExecutionStatus> {
    if v == "completed"@ || v == "Completed"@ {
        Some(ExecutionStatus::Completed)
    } else if v == "partially_failed"@ || v == "PartiallyFailed"@ {
        Some(ExecutionStatus::PartiallyFailed)
    } else if v == "rejected"@ || v == "Rejected"@ {
        Some(ExecutionStatus::Rejected)
    } else {
        None
    }
}

/// Reads an execution status.
pub fn parse_execution_status(status: &str) -> (r: Result<ExecutionStatus, String>)
    ensures
        match execution_status_named(status@) {
            Some(s) => r == Ok::<ExecutionStatus, String>(s),
            None => r matches Err(e) && e@ == "unsupported execution status: "@ + status@,
        },
{
    let v = crate::text::chars_of(status);
    if text_is(&v, "completed") || text_is(&v, "Completed") {
        Ok(ExecutionStatus::Completed)
    } else if text_is(&v, "partially_failed") || text_is(&v, "PartiallyFailed") {
        Ok(ExecutionStatus::PartiallyFailed)
    } else if text_is(&v, "rejected") || text_is(&v, "Rejected") {
        Ok(ExecutionStatus::Rejected)
    } else {
        Err(String::from_str("unsupported execution status: ").concat(status))
    }
}

/// The key of an operation's kind.
pub open spec fn operation_type(k: FileOperationKind) -> Seq<char> {
    match k {
        FileOperationKind::CreateFolder { .. } => "create_folder"@,
        FileOperationKind::MoveFile { .. } => "move_file"@,
        FileOperationKind::RenameFile { .. } => "rename_file"@,
    }
}

/// An operation as its key, its source (if any) and its target.
pub fn operation_kind_parts(kind: &FileOperationKind) -> (r: (&'static str, Option<String>, String))
    ensures
        r.0@ == operation_type(*kind),
        crate::skill_engine::opt_view(r.1) == crate::model::kind_source(*kind),
        r.2@ == crate::model::kind_destination(*kind),
{
    match kind {
        FileOperationKind::CreateFolder { path } => ("create_folder", None, path.clone()),
        FileOperationKind::MoveFile { source, destination } => (
            "move_file",
            Some(source.clone()),
            destination.clone(),
        ),
        FileOperationKind::RenameFile { source, destination } => (
            "rename_file",
            Some(source.clone()),
            destination.clone(),
        ),
    }
}

/// `k` is the operation that a key, a source and a target describe.
pub open spec fn is_kind_from_parts(
    k: FileOperationKind,
    operation_type: Seq<char>,
    source: Option<Seq<char>>,
    target: Seq<char>,
) -> bool {
    &&& crate::keys::operation_type(k) == operation_type
    &&& crate::model::kind_destination(k) == target
    &&& crate::model::kind_source(k) == if operation_type == "create_folder"@ {
        None
    } else {
        source
    }
}

/// Which failure, if any, keeps a key, a source and a target from
/// describing an operation.
pub open spec fn parts_error(operation_type: Seq<char>, source: Option<Seq<char>>) -> Option<Seq<char>> {
    if operation_type == "create_folder"@ {
        None
    } else if operation_type == "move_file"@ {
        if source is None {
            Some("move_file operation missing source"@)
        } else {
            None
        }
    } else if operation_type == "rename_file"@ {
        if source is None {
            Some("rename_file operation missing source"@)
        } else {
            None
        }
    } else {
        Some("unsupported operation_type: "@ + operation_type)
    }
}

/// The operation that a key, a source and a target describe.
pub fn operation_kind_from_parts(operation_type: &str, source: Option<&str>, target: &str) -> (r: Result<
    FileOperationKind,
    String,
>)
    ensures
        match parts_error(operation_type@, match source {
            Some(s) => Some(s@),
            None => None,
        }) {
            Some(m) => r matches Err(e) && e@ == m,
            None => r matches Ok(k) && is_kind_from_parts(k, operation_type@, match source {
                Some(s) => Some(s@),
                None => None,
            }, target@),
        },
{
    let t = crate::text::chars_of(operation_type);
    if text_is(&t, "create_folder") {
        Ok(FileOperationKind::CreateFolder { path: String::from_str(target) })
    } else if text_is(&t, "move_file") {
        match source {
            Some(s) => Ok(FileOperationKind::MoveFile { source: String::from_str(s), destination: String::from_str(target) }),
            None => Err(String::from_str("move_file operation missing source")),
        }
    } else if text_is(&t, "rename_file") {
        match source {
            Some(s) => Ok(FileOperationKind::RenameFile { source: String::from_str(s), destination: String::from_str(target) }),
            None => Err(String::from_str("rename_file operation missing source")),
        }
    } else {
        Err(String::from_str("unsupported operation_type: ").concat(operation_type))
    }
}


/// Spells out the accepted texts so that they can be told apart.
proof fn lemma_key_spellings()
    ensures
        "documents"@.len() == 9 && "documents"@[0] == 'd' && "documents"@[1] == 'o' && "documents"@[2] == 'c' && "documents"@[3] == 'u' && "documents"@[4] == 'm' && "documents"@[5] == 'e' && "documents"@[6] == 'n' && "documents"@[7] == 't' && "documents"@[8] == 's',
        "Documents"@.len() == 9 && "Documents"@[0] == 'D' && "Documents"@[1] == 'o' && "Documents"@[2] == 'c' && "Documents"@[3] == 'u' && "Documents"@[4] == 'm' && "Documents"@[5] == 'e' && "Documents"@[6] == 'n' && "Documents"@[7] == 't' && "Documents"@[8] == 's',
        "文档"@.len() == 2 && "文档"@[0] == '文' && "文档"@[1] == '档',
        "images"@.len() == 6 && "images"@[0] == 'i' && "images"@[1] == 'm' && "images"@[2] == 'a' && "images"@[3] == 'g' && "images"@[4] == 'e' && "images"@[5] == 's',
        "Images"@.len() == 6 && "Images"@[0] == 'I' && "Images"@[1] == 'm' && "Images"@[2] == 'a' && "Images"@[3] == 'g' && "Images"@[4] == 'e' && "Images"@[5] == 's',
        "图片"@.len() == 2 && "图片"@[0] == '图' && "图片"@[1] == '片',
        "videos"@.len() == 6 && "videos"@[0] == 'v' && "videos"@[1] == 'i' && "videos"@[2] == 'd' && "videos"@[3] == 'e' && "videos"@[4] == 'o' && "videos"@[5] == 's',
        "Videos"@.len() == 6 && "Videos"@[0] == 'V' && "Videos"@[1] == 'i' && "Videos"@[2] == 'd' && "Videos"@[3] == 'e' && "Videos"@[4] == 'o' && "Videos"@[5] == 's',
        "视频"@.len() == 2 && "视频"@[0] == '视' && "视频"@[1] == '频',
        "audio"@.len() == 5 && "audio"@[0] == 'a' && "audio"@[1] == 'u' && "audio"@[2] == 'd' && "audio"@[3] == 'i' && "audio"@[4] == 'o',
        "Audio"@.len() == 5 && "Audio"@[0] == 'A' && "Audio"@[1] == 'u' && "Audio"@[2] == 'd' && "Audio"@[3] == 'i' && "Audio"@[4] == 'o',
        "音频"@.len() == 2 && "音频"@[0] == '音' && "音频"@[1] == '频',
        "archives"@.len() == 8 && "archives"@[0] == 'a' && "archives"@[1] == 'r' && "archives"@[2] == 'c' && "archives"@[3] == 'h' && "archives"@[4] == 'i' && "archives"@[5] == 'v' && "archives"@[6] == 'e' && "archives"@[7] == 's',
        "Archives"@.len() == 8 && "Archives"@[0] == 'A' && "Archives"@[1] == 'r' && "Archives"@[2] == 'c' && "Archives"@[3] == 'h' && "Archives"@[4] == 'i' && "Archives"@[5] == 'v' && "Archives"@[6] == 'e' && "Archives"@[7] == 's',
        "压缩包"@.len() == 3 && "压缩包"@[0] == '压' && "压缩包"@[1] == '缩' && "压缩包"@[2] == '包',
        "installers"@.len() == 10 && "installers"@[0] == 'i' && "installers"@[1] == 'n' && "installers"@[2] == 's' && "installers"@[3] == 't' && "installers"@[4] == 'a' && "installers"@[5] == 'l' && "installers"@[6] == 'l' && "installers"@[7] == 'e' && "installers"@[8] == 'r' && "installers"@[9] == 's',
        "Installers"@.len() == 10 && "Installers"@[0] == 'I' && "Installers"@[1] == 'n' && "Installers"@[2] == 's' && "Installers"@[3] == 't' && "Installers"@[4] == 'a' && "Installers"@[5] == 'l' && "Installers"@[6] == 'l' && "Installers"@[7] == 'e' && "Installers"@[8] == 'r' && "Installers"@[9] == 's',
        "安装包"@.len() == 3 && "安装包"@[0] == '安' && "安装包"@[1] == '装' && "安装包"@[2] == '包',
        "code"@.len() == 4 && "code"@[0] == 'c' && "code"@[1] == 'o' && "code"@[2] == 'd' && "code"@[3] == 'e',
        "Code"@.len() == 4 && "Code"@[0] == 'C' && "Code"@[1] == 'o' && "Code"@[2] == 'd' && "Code"@[3] == 'e',
        "代码"@.len() == 2 && "代码"@[0] == '代' && "代码"@[1] == '码',
        "spreadsheets"@.len() == 12 && "spreadsheets"@[0] == 's' && "spreadsheets"@[1] == 'p' && "spreadsheets"@[2] == 'r' && "spreadsheets"@[3] == 'e' && "spreadsheets"@[4] == 'a' && "spreadsheets"@[5] == 'd' && "spreadsheets"@[6] == 's' && "spreadsheets"@[7] == 'h' && "spreadsheets"@[8] == 'e' && "spreadsheets"@[9] == 'e' && "spreadsheets"@[10] == 't' && "spreadsheets"@[11] == 's',
        "Spreadsheets"@.len() == 12 && "Spreadsheets"@[0] == 'S' && "Spreadsheets"@[1] == 'p' && "Spreadsheets"@[2] == 'r' && "Spreadsheets"@[3] == 'e' && "Spreadsheets"@[4] == 'a' && "Spreadsheets"@[5] == 'd' && "Spreadsheets"@[6] == 's' && "Spreadsheets"@[7] == 'h' && "Spreadsheets"@[8] == 'e' && "Spreadsheets"@[9] == 'e' && "Spreadsheets"@[10] == 't' && "Spreadsheets"@[11] == 's',
        "表格"@.len() == 2 && "表格"@[0] == '表' && "表格"@[1] == '格',
        "presentations"@.len() == 13 && "presentations"@[0] == 'p' && "presentations"@[1] == 'r' && "presentations"@[2] == 'e' && "presentations"@[3] == 's' && "presentations"@[4] == 'e' && "presentations"@[5] == 'n' && "presentations"@[6] == 't' && "presentations"@[7] == 'a' && "presentations"@[8] == 't' && "presentations"@[9] == 'i' && "presentations"@[10] == 'o' && "presentations"@[11] == 'n' && "presentations"@[12] == 's',
        "Presentations"@.len() == 13 && "Presentations"@[0] == 'P' && "Presentations"@[1] == 'r' && "Presentations"@[2] == 'e' && "Presentations"@[3] == 's' && "Presentations"@[4] == 'e' && "Presentations"@[5] == 'n' && "Presentations"@[6] == 't' && "Presentations"@[7] == 'a' && "Presentations"@[8] == 't' && "Presentations"@[9] == 'i' && "Presentations"@[10] == 'o' && "Presentations"@[11] == 'n' && "Presentations"@[12] == 's',
        "演示文稿"@.len() == 4 && "演示文稿"@[0] == '演' && "演示文稿"@[1] == '示' && "演示文稿"@[2] == '文' && "演示文稿"@[3] == '稿',
        "pdf"@.len() == 3 && "pdf"@[0] == 'p' && "pdf"@[1] == 'd' && "pdf"@[2] == 'f',
        "Pdf"@.len() == 3 && "Pdf"@[0] == 'P' && "Pdf"@[1] == 'd' && "Pdf"@[2] == 'f',
        "PDF"@.len() == 3 && "PDF"@[0] == 'P' && "PDF"@[1] == 'D' && "PDF"@[2] == 'F',
        "other"@.len() == 5 && "other"@[0] == 'o' && "other"@[1] == 't' && "other"@[2] == 'h' && "other"@[3] == 'e' && "other"@[4] == 'r',
        "Other"@.len() == 5 && "Other"@[0] == 'O' && "Other"@[1] == 't' && "Other"@[2] == 'h' && "Other"@[3] == 'e' && "Other"@[4] == 'r',
        "其他"@.len() == 2 && "其他"@[0] == '其' && "其他"@[1] == '他',
        ""@.len() == 0,
        "low"@.len() == 3 && "low"@[0] == 'l' && "low"@[1] == 'o' && "low"@[2] == 'w',
        "Low"@.len() == 3 && "Low"@[0] == 'L' && "Low"@[1] == 'o' && "Low"@[2] == 'w',
        "medium"@.len() == 6 && "medium"@[0] == 'm' && "medium"@[1] == 'e' && "medium"@[2] == 'd' && "medium"@[3] == 'i' && "medium"@[4] == 'u' && "medium"@[5] == 'm',
        "Medium"@.len() == 6 && "Medium"@[0] == 'M' && "Medium"@[1] == 'e' && "Medium"@[2] == 'd' && "Medium"@[3] == 'i' && "Medium"@[4] == 'u' && "Medium"@[5] == 'm',
        "high"@.len() == 4 && "high"@[0] == 'h' && "high"@[1] == 'i' && "high"@[2] == 'g' && "high"@[3] == 'h',
        "High"@.len() == 4 && "High"@[0] == 'H' && "High"@[1] == 'i' && "High"@[2] == 'g' && "High"@[3] == 'h',
        "by_category"@.len() == 11 && "by_category"@[0] == 'b' && "by_category"@[1] == 'y' && "by_category"@[2] == '_' && "by_category"@[3] == 'c' && "by_category"@[4] == 'a' && "by_category"@[5] == 't' && "by_category"@[6] == 'e' && "by_category"@[7] == 'g' && "by_category"@[8] == 'o' && "by_category"@[9] == 'r' && "by_category"@[10] == 'y',
        "category"@.len() == 8 && "category"@[0] == 'c' && "category"@[1] == 'a' && "category"@[2] == 't' && "category"@[3] == 'e' && "category"@[4] == 'g' && "category"@[5] == 'o' && "category"@[6] == 'r' && "category"@[7] == 'y',
        "ByCategory"@.len() == 10 && "ByCategory"@[0] == 'B' && "ByCategory"@[1] == 'y' && "ByCategory"@[2] == 'C' && "ByCategory"@[3] == 'a' && "ByCategory"@[4] == 't' && "ByCategory"@[5] == 'e' && "ByCategory"@[6] == 'g' && "ByCategory"@[7] == 'o' && "ByCategory"@[8] == 'r' && "ByCategory"@[9] == 'y',
        "by_extension"@.len() == 12 && "by_extension"@[0] == 'b' && "by_extension"@[1] == 'y' && "by_extension"@[2] == '_' && "by_extension"@[3] == 'e' && "by_extension"@[4] == 'x' && "by_extension"@[5] == 't' && "by_extension"@[6] == 'e' && "by_extension"@[7] == 'n' && "by_extension"@[8] == 's' && "by_extension"@[9] == 'i' && "by_extension"@[10] == 'o' && "by_extension"@[11] == 'n',
        "extension"@.len() == 9 && "extension"@[0] == 'e' && "extension"@[1] == 'x' && "extension"@[2] == 't' && "extension"@[3] == 'e' && "extension"@[4] == 'n' && "extension"@[5] == 's' && "extension"@[6] == 'i' && "extension"@[7] == 'o' && "extension"@[8] == 'n',
        "ByExtension"@.len() == 11 && "ByExtension"@[0] == 'B' && "ByExtension"@[1] == 'y' && "ByExtension"@[2] == 'E' && "ByExtension"@[3] == 'x' && "ByExtension"@[4] == 't' && "ByExtension"@[5] == 'e' && "ByExtension"@[6] == 'n' && "ByExtension"@[7] == 's' && "ByExtension"@[8] == 'i' && "ByExtension"@[9] == 'o' && "ByExtension"@[10] == 'n',
        "desktop"@.len() == 7 && "desktop"@[0] == 'd' && "desktop"@[1] == 'e' && "desktop"@[2] == 's' && "desktop"@[3] == 'k' && "desktop"@[4] == 't' && "desktop"@[5] == 'o' && "desktop"@[6] == 'p',
        "Desktop"@.len() == 7 && "Desktop"@[0] == 'D' && "Desktop"@[1] == 'e' && "Desktop"@[2] == 's' && "Desktop"@[3] == 'k' && "Desktop"@[4] == 't' && "Desktop"@[5] == 'o' && "Desktop"@[6] == 'p',
        "completed"@.len() == 9 && "completed"@[0] == 'c' && "completed"@[1] == 'o' && "completed"@[2] == 'm' && "completed"@[3] == 'p' && "completed"@[4] == 'l' && "completed"@[5] == 'e' && "completed"@[6] == 't' && "completed"@[7] == 'e' && "completed"@[8] == 'd',
        "Completed"@.len() == 9 && "Completed"@[0] == 'C' && "Completed"@[1] == 'o' && "Completed"@[2] == 'm' && "Completed"@[3] == 'p' && "Completed"@[4] == 'l' && "Completed"@[5] == 'e' && "Completed"@[6] == 't' && "Completed"@[7] == 'e' && "Completed"@[8] == 'd',
        "partially_failed"@.len() == 16 && "partially_failed"@[0] == 'p' && "partially_failed"@[1] == 'a' && "partially_failed"@[2] == 'r' && "partially_failed"@[3] == 't' && "partially_failed"@[4] == 'i' && "partially_failed"@[5] == 'a' && "partially_failed"@[6] == 'l' && "partially_failed"@[7] == 'l' && "partially_failed"@[8] == 'y' && "partially_failed"@[9] == '_' && "partially_failed"@[10] == 'f' && "partially_failed"@[11] == 'a' && "partially_failed"@[12] == 'i' && "partially_failed"@[13] == 'l' && "partially_failed"@[14] == 'e' && "partially_failed"@[15] == 'd',
        "PartiallyFailed"@.len() == 15 && "PartiallyFailed"@[0] == 'P' && "PartiallyFailed"@[1] == 'a' && "PartiallyFailed"@[2] == 'r' && "PartiallyFailed"@[3] == 't' && "PartiallyFailed"@[4] == 'i' && "PartiallyFailed"@[5] == 'a' && "PartiallyFailed"@[6] == 'l' && "PartiallyFailed"@[7] == 'l' && "PartiallyFailed"@[8] == 'y' && "PartiallyFailed"@[9] == 'F' && "PartiallyFailed"@[10] == 'a' && "PartiallyFailed"@[11] == 'i' && "PartiallyFailed"@[12] == 'l' && "PartiallyFailed"@[13] == 'e' && "PartiallyFailed"@[14] == 'd',
        "rejected"@.len() == 8 && "rejected"@[0] == 'r' && "rejected"@[1] == 'e' && "rejected"@[2] == 'j' && "rejected"@[3] == 'e' && "rejected"@[4] == 'c' && "rejected"@[5] == 't' && "rejected"@[6] == 'e' && "rejected"@[7] == 'd',
        "Rejected"@.len() == 8 && "Rejected"@[0] == 'R' && "Rejected"@[1] == 'e' && "Rejected"@[2] == 'j' && "Rejected"@[3] == 'e' && "Rejected"@[4] == 'c' && "Rejected"@[5] == 't' && "Rejected"@[6] == 'e' && "Rejected"@[7] == 'd',
{
    reveal_strlit("documents");
    reveal_strlit("Documents");
    reveal_strlit("文档");
    reveal_strlit("images");
    reveal_strlit("Images");
    reveal_strlit("图片");
    reveal_strlit("videos");
    reveal_strlit("Videos");
    reveal_strlit("视频");
    reveal_strlit("audio");
    reveal_strlit("Audio");
    reveal_strlit("音频");
    reveal_strlit("archives");
    reveal_strlit("Archives");
    reveal_strlit("压缩包");
    reveal_strlit("installers");
    reveal_strlit("Installers");
    reveal_strlit("安装包");
    reveal_strlit("code");
    reveal_strlit("Code");
    reveal_strlit("代码");
    reveal_strlit("spreadsheets");
    reveal_strlit("Spreadsheets");
    reveal_strlit("表格");
    reveal_strlit("presentations");
    reveal_strlit("Presentations");
    reveal_strlit("演示文稿");
    reveal_strlit("pdf");
    reveal_strlit("Pdf");
    reveal_strlit("PDF");
    reveal_strlit("other");
    reveal_strlit("Other");
    reveal_strlit("其他");
    reveal_strlit("");
    reveal_strlit("low");
    reveal_strlit("Low");
    reveal_strlit("medium");
    reveal_strlit("Medium");
    reveal_strlit("high");
    reveal_strlit("High");
    reveal_strlit("by_category");
    reveal_strlit("category");
    reveal_strlit("ByCategory");
    reveal_strlit("by_extension");
    reveal_strlit("extension");
    reveal_strlit("ByExtension");
    reveal_strlit("desktop");
    reveal_strlit("Desktop");
    reveal_strlit("completed");
    reveal_strlit("Completed");
    reveal_strlit("partially_failed");
    reveal_strlit("PartiallyFailed");
    reveal_strlit("rejected");
    reveal_strlit("Rejected");
}

/// The texts the front end may send for each value: categories by key,
/// variant name or Chinese label; risk levels by key or variant name, the
/// empty text reading as low; organization modes by key, short key or
/// variant name; execution statuses by key or variant name.
pub proof fn law_accepted_spellings()
    ensures
        category_named("documents"@) == Some(FileCategory::Documents),
        category_named("Documents"@) == Some(FileCategory::Documents),
        category_named("文档"@) == Some(FileCategory::Documents),
        category_named("images"@) == Some(FileCategory::Images),
        category_named("Images"@) == Some(FileCategory::Images),
        category_named("图片"@) == Some(FileCategory::Images),
        category_named("videos"@) == Some(FileCategory::Videos),
        category_named("Videos"@) == Some(FileCategory::Videos),
        category_named("视频"@) == Some(FileCategory::Videos),
        category_named("audio"@) == Some(FileCategory::Audio),
        category_named("Audio"@) == Some(FileCategory::Audio),
        category_named("音频"@) == Some(FileCategory::Audio),
        category_named("archives"@) == Some(FileCategory::Archives),
        category_named("Archives"@) == Some(FileCategory::Archives),
        category_named("压缩包"@) == Some(FileCategory::Archives),
        category_named("installers"@) == Some(FileCategory::Installers),
        category_named("Installers"@) == Some(FileCategory::Installers),
        category_named("安装包"@) == Some(FileCategory::Installers),
        category_named("code"@) == Some(FileCategory::Code),
        category_named("Code"@) == Some(FileCategory::Code),
        category_named("代码"@) == Some(FileCategory::Code),
        category_named("spreadsheets"@) == Some(FileCategory::Spreadsheets),
        category_named("Spreadsheets"@) == Some(FileCategory::Spreadsheets),
        category_named("表格"@) == Some(FileCategory::Spreadsheets),
        category_named("presentations"@) == Some(FileCategory::Presentations),
        category_named("Presentations"@) == Some(FileCategory::Presentations),
        category_named("演示文稿"@) == Some(FileCategory::Presentations),
        category_named("pdf"@) == Some(FileCategory::Pdf),
        category_named("Pdf"@) == Some(FileCategory::Pdf),
        category_named("PDF"@) == Some(FileCategory::Pdf),
        category_named("other"@) == Some(FileCategory::Other),
        category_named("Other"@) == Some(FileCategory::Other),
        category_named("其他"@) == Some(FileCategory::Other),
        risk_named(""@) == Some(FileRiskLevel::Low),
        risk_named("low"@) == Some(FileRiskLevel::Low),
        risk_named("Low"@) == Some(FileRiskLevel::Low),
        risk_named("medium"@) == Some(FileRiskLevel::Medium),
        risk_named("Medium"@) == Some(FileRiskLevel::Medium),
        risk_named("high"@) == Some(FileRiskLevel::High),
        risk_named("High"@) == Some(FileRiskLevel::High),
        mode_named("by_category"@) == Some(OrganizationMode::ByCategory),
        mode_named("category"@) == Some(OrganizationMode::ByCategory),
        mode_named("ByCategory"@) == Some(OrganizationMode::ByCategory),
        mode_named("by_extension"@) == Some(OrganizationMode::ByExtension),
        mode_named("extension"@) == Some(OrganizationMode::ByExtension),
        mode_named("ByExtension"@) == Some(OrganizationMode::ByExtension),
        mode_named("desktop"@) == Some(OrganizationMode::Desktop),
        mode_named("Desktop"@) == Some(OrganizationMode::Desktop),
        execution_status_named("completed"@) == Some(ExecutionStatus::Completed),
        execution_status_named("Completed"@) == Some(ExecutionStatus::Completed),
        execution_status_named("partially_failed"@) == Some(ExecutionStatus::PartiallyFailed),
        execution_status_named("PartiallyFailed"@) == Some(ExecutionStatus::PartiallyFailed),
        execution_status_named("rejected"@) == Some(ExecutionStatus::Rejected),
        execution_status_named("Rejected"@) == Some(ExecutionStatus::Rejected),
{
    lemma_key_spellings();
}

} // verus!
