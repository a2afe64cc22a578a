//! The local classifier: an enabled skill wins over a classification rule,
//! a rule over file-name keywords, keywords over extension and MIME type.

use vstd::prelude::*;
use crate::model::{
    ClassificationContext, ClassificationResult, ClassificationRule, FileCategory, FileItem,
    FileRiskLevel, RuleCondition, RuleField, RuleOperator, RuleValue, Skill, SkillRule,
};
use crate::text::{
    contains_seq, decimal, ends_with, eq_ignore_ascii_case, starts_with, strip_leading,
    unicode_lowercase,
};

verus! {

broadcast use crate::text::lemma_chars_deep_view;

/// The text of an optional text, empty when absent.
pub open spec fn text_or_empty(o: Option<String>) -> Seq<char> {
    match o {
        Some(s) => s@,
        None => Seq::empty(),
    }
}

/// The category a skill's matcher gives a file, if every condition it has
/// holds and it has at least one.
pub open spec fn skill_category(file: FileItem, rule: SkillRule) -> Option<FileCategory> {
    if !(rule.extension is Some || rule.file_name_contains is Some || rule.mime_prefix is Some) {
        None
    } else if (rule.extension matches Some(e) && !(file.extension matches Some(a)
        && eq_ignore_ascii_case(a@, strip_leading(e@, '.')))) {
        None
    } else if (rule.file_name_contains matches Some(n) && !contains_seq(
        unicode_lowercase(file.file_name@),
        unicode_lowercase(n@),
    )) {
        None
    } else if (rule.mime_prefix matches Some(p) && !(file.mime_type matches Some(m)
        && starts_with(m@, p@))) {
        None
    } else {
        Some(rule.category)
    }
}

/// An enabled skill whose matcher accepts the file.
pub open spec fn skill_hits(file: FileItem, s: Skill) -> bool {
    s.enabled && skill_category(file, s.rule) is Some
}

/// `i` is the first skill that accepts the file.
pub open spec fn is_first_skill(file: FileItem, skills: Seq<Skill>, i: int) -> bool {
    &&& 0 <= i < skills.len()
    &&& skill_hits(file, skills[i])
    &&& forall|j: int| 0 <= j < i ==> !skill_hits(file, #[trigger] skills[j])
}

/// The evidence of a skill match.
pub open spec fn skill_evidence(name: Seq<char>) -> Seq<Seq<char>> {
    seq!["命中已启用 Skill："@ + name, "Skill 建议优先于内置规则"@]
}

/// The field of the file that a condition reads; absent fields read as empty.
pub open spec fn field_text(file: FileItem, field: RuleField) -> Seq<char> {
    match field {
        RuleField::FileName => file.file_name@,
        RuleField::Extension => text_or_empty(file.extension),
        RuleField::MimeType => text_or_empty(file.mime_type),
        RuleField::RelativePath => file.relative_path@,
    }
}

/// `actual` equals `expected` up to ASCII case, ignoring leading dots of `expected`.
pub open spec fn same_name(actual: Seq<char>, expected: Seq<char>) -> bool {
    eq_ignore_ascii_case(actual, strip_leading(expected, '.'))
}

/// A condition holds for a file.
pub open spec fn condition_holds(file: FileItem, c: RuleCondition) -> bool {
    let actual = field_text(file, c.field);
    match c.operator {
        RuleOperator::Equals => c.value matches RuleValue::Text(e) && same_name(actual, e@),
        RuleOperator::Contains => c.value matches RuleValue::Text(e) && contains_seq(
            unicode_lowercase(actual),
            unicode_lowercase(e@),
        ),
        RuleOperator::StartsWith => c.value matches RuleValue::Text(e) && starts_with(
            unicode_lowercase(actual),
            unicode_lowercase(e@),
        ),
        RuleOperator::EndsWith => c.value matches RuleValue::Text(e) && ends_with(
            unicode_lowercase(actual),
            unicode_lowercase(e@),
        ),
        RuleOperator::In => c.value matches RuleValue::List(vs) && exists|k: int|
            0 <= k < vs@.len() && same_name(actual, #[trigger] vs@[k]@),
    }
}

/// An enabled rule with conditions, all of which hold for the file.
pub open spec fn rule_hits(file: FileItem, r: ClassificationRule) -> bool {
    &&& r.enabled
    &&& r.conditions@.len() > 0
    &&& forall|k: int| 0 <= k < r.conditions@.len() ==> condition_holds(file, #[trigger] r.conditions@[k])
}

/// `i` is the rule that applies: it hits, no hitting rule has a higher
/// priority, and no earlier hitting rule has the same priority.
pub open spec fn is_best_rule(file: FileItem, rules: Seq<ClassificationRule>, i: int) -> bool {
    &&& 0 <= i < rules.len()
    &&& rule_hits(file, rules[i])
    &&& forall|j: int|
        0 <= j < rules.len() && rule_hits(file, #[trigger] rules[j]) ==> rules[j].priority
            < rules[i].priority || (rules[j].priority == rules[i].priority && i <= j)
}

/// The evidence of a rule match.
pub open spec fn rule_evidence(r: ClassificationRule) -> Seq<Seq<char>> {
    seq!["命中分类规则："@ + r.name@ + "（优先级 "@ + decimal(r.priority as int) + "）"@]
}

/// The keyword group that a lower-cased file name hits first, with its evidence.
pub open spec fn keyword_hit(name: Seq<char>) -> Option<(FileCategory, Seq<char>)> {
    if contains_seq(name, "screenshot"@) || contains_seq(name, "截屏"@) || contains_seq(
        name,
        "截图"@,
    ) {
        Some((FileCategory::Images, "文件名包含截图关键词"@))
    } else if contains_seq(name, "invoice"@) || contains_seq(name, "receipt"@) || contains_seq(
        name,
        "发票"@,
    ) || contains_seq(name, "票据"@) || contains_seq(name, "收据"@) {
        Some((FileCategory::Documents, "文件名包含票据关键词"@))
    } else if contains_seq(name, "contract"@) || contains_seq(name, "agreement"@) || contains_seq(
        name,
        "合同"@,
    ) || contains_seq(name, "协议"@) {
        Some((FileCategory::Documents, "文件名包含合同关键词"@))
    } else if contains_seq(name, "meeting"@) || contains_seq(name, "minutes"@) || contains_seq(
        name,
        "会议纪要"@,
    ) {
        Some((FileCategory::Documents, "文件名包含会议纪要关键词"@))
    } else {
        None
    }
}

/// The category of a normalized extension, if it is a known one.
pub open spec fn extension_category(e: Seq<char>) -> Option<FileCategory> {
    if e == "pdf"@ {
        Some(FileCategory::Pdf)
    } else if e == "jpg"@ || e == "jpeg"@ || e == "png"@ || e == "gif"@ || e == "webp"@ || e
        == "heic"@ || e == "tiff"@ || e == "bmp"@ || e == "svg"@ {
        Some(FileCategory::Images)
    } else if e == "mp4"@ || e == "mov"@ || e == "mkv"@ || e == "avi"@ || e == "webm"@ || e
        == "m4v"@ {
        Some(FileCategory::Videos)
    } else if e == "mp3"@ || e == "wav"@ || e == "flac"@ || e == "aac"@ || e == "m4a"@ || e
        == "ogg"@ {
        Some(FileCategory::Audio)
    } else if e == "zip"@ || e == "rar"@ || e == "7z"@ || e == "tar"@ || e == "gz"@ || e
        == "bz2"@ || e == "xz"@ {
        Some(FileCategory::Archives)
    } else if e == "dmg"@ || e == "pkg"@ || e == "exe"@ || e == "msi"@ || e == "appimage"@ || e
        == "deb"@ || e == "rpm"@ {
        Some(FileCategory::Installers)
    } else if e == "rs"@ || e == "js"@ || e == "ts"@ || e == "tsx"@ || e == "jsx"@ || e == "py"@
        || e == "go"@ || e == "java"@ || e == "kt"@ || e == "swift"@ || e == "c"@ || e == "cpp"@
        || e == "h"@ || e == "hpp"@ || e == "html"@ || e == "css"@ || e == "json"@ || e
        == "toml"@ || e == "yaml"@ || e == "yml"@ || e == "sql"@ || e == "sh"@ {
        Some(FileCategory::Code)
    } else if e == "xls"@ || e == "xlsx"@ || e == "csv"@ || e == "tsv"@ || e == "numbers"@ {
        Some(FileCategory::Spreadsheets)
    } else if e == "ppt"@ || e == "pptx"@ || e == "key"@ {
        Some(FileCategory::Presentations)
    } else if e == "txt"@ || e == "md"@ || e == "doc"@ || e == "docx"@ || e == "rtf"@ || e
        == "pages"@ {
        Some(FileCategory::Documents)
    } else {
        None
    }
}

/// The category a MIME type suggests, if any.
pub open spec fn mime_category(m: Seq<char>) -> Option<FileCategory> {
    if m == "application/pdf"@ {
        Some(FileCategory::Pdf)
    } else if starts_with(m, "image/"@) {
        Some(FileCategory::Images)
    } else if starts_with(m, "video/"@) {
        Some(FileCategory::Videos)
    } else if starts_with(m, "audio/"@) {
        Some(FileCategory::Audio)
    } else if starts_with(m, "text/"@) {
        Some(FileCategory::Documents)
    } else {
        None
    }
}

/// The fallback classification from extension and MIME type.
pub open spec fn basic_classification(extension: Seq<char>, mime: Seq<char>) -> (
    FileCategory,
    u32,
    Seq<Seq<char>>,
) {
    let normalized = unicode_lowercase(strip_leading(extension, '.'));
    let category = match extension_category(normalized) {
        Some(c) => c,
        None => match mime_category(mime) {
            Some(c) => c,
            None => FileCategory::Other,
        },
    };
    if normalized.len() > 0 && category != FileCategory::Other {
        (category, 85, seq!["扩展名 ."@ + normalized + " 命中本地基础分类规则"@])
    } else if mime.len() > 0 && category != FileCategory::Other {
        (category, 82, seq!["MIME 类型 "@ + mime + " 命中本地基础分类规则"@])
    } else {
        (FileCategory::Other, 20, seq!["未命中扩展名、MIME、关键词或 Skill，归入其他"@])
    }
}

/// The category, confidence (hundredths) and evidence the classifier gives a file.
pub open spec fn classification_of(file: FileItem, ctx: ClassificationContext) -> (
    FileCategory,
    u32,
    Seq<Seq<char>>,
) {
    if exists|i: int| is_first_skill(file, ctx.skills@, i) {
        let i = choose|i: int| is_first_skill(file, ctx.skills@, i);
        (
            skill_category(file, ctx.skills@[i].rule).unwrap(),
            96,
            skill_evidence(ctx.skills@[i].name@),
        )
    } else if exists|i: int| is_best_rule(file, ctx.rules@, i) {
        let i = choose|i: int| is_best_rule(file, ctx.rules@, i);
        (ctx.rules@[i].target_category, 92, rule_evidence(ctx.rules@[i]))
    } else if keyword_hit(unicode_lowercase(file.file_name@)) is Some {
        let (c, e) = keyword_hit(unicode_lowercase(file.file_name@)).unwrap();
        (c, 88, seq![e])
    } else {
        basic_classification(text_or_empty(file.extension), text_or_empty(file.mime_type))
    }
}

/// Only one skill can be the first that accepts a file.
pub proof fn lemma_first_skill_unique(file: FileItem, skills: Seq<Skill>, i: int, j: int)
    requires
        is_first_skill(file, skills, i),
        is_first_skill(file, skills, j),
    ensures
        i == j,
{
    if i < j {
        assert(!skill_hits(file, skills[i]));
    }
    if j < i {
        assert(!skill_hits(file, skills[j]));
    }
}

/// Only one rule can be the one that applies.
pub proof fn lemma_best_rule_unique(file: FileItem, rules: Seq<ClassificationRule>, i: int, j: int)
    requires
        is_best_rule(file, rules, i),
        is_best_rule(file, rules, j),
    ensures
        i == j,
{
    assert(rule_hits(file, rules[i]));
    assert(rule_hits(file, rules[j]));
}

/// A suggested category with confidence (hundredths) and evidence.
struct Candidate {
    category: FileCategory,
    confidence: u32,
    evidence: Vec<String>,
}

/// The characters of an optional text, empty when absent.
fn chars_or_empty(o: &Option<String>) -> (r: Vec<char>)
    ensures
        r@ == text_or_empty(*o),
{
    match o {
        Some(s) => crate::text::chars_of(s.as_str()),
        None => Vec::new(),
    }
}

/// The category a skill's matcher gives a file.
fn skill_match(file: &FileItem, rule: &SkillRule) -> (r: Option<FileCategory>)
    ensures
        r == skill_category(*file, *rule),
{
    if !(rule.extension.is_some() || rule.file_name_contains.is_some() || rule.mime_prefix.is_some()) {
        return None;
    }
    if let Some(e) = &rule.extension {
        let expected = crate::text::strip_leading_chars(&crate::text::chars_of(e.as_str()), '.');
        let ok = match &file.extension {
            Some(a) => crate::text::eq_ignore_ascii_case_chars(&crate::text::chars_of(a.as_str()), &expected),
            None => false,
        };
        if !ok {
            return None;
        }
    }
    if let Some(n) = &rule.file_name_contains {
        if !crate::text::contains_case_insensitive(file.file_name.as_str(), n.as_str()) {
            return None;
        }
    }
    if let Some(p) = &rule.mime_prefix {
        let ok = match &file.mime_type {
            Some(m) => crate::text::starts_with_chars(&crate::text::chars_of(m.as_str()), &crate::text::chars_of(p.as_str())),
            None => false,
        };
        if !ok {
            return None;
        }
    }
    Some(rule.category)
}

/// The index of the first enabled skill that accepts the file.
fn skill_candidate(file: &FileItem, skills: &Vec<Skill>) -> (r: Option<usize>)
    ensures
        match r {
            Some(i) => is_first_skill(*file, skills@, i as int),
            None => forall|i: int| !is_first_skill(*file, skills@, i),
        },
{
    let mut i: usize = 0;
    while i < skills.len()
        invariant
            i <= skills@.len(),
            forall|j: int| 0 <= j < i ==> !skill_hits(*file, #[trigger] skills@[j]),
        decreases skills.len() - i,
    {
        if skills[i].enabled && skill_match(file, &skills[i].rule).is_some() {
            return Some(i);
        }
        i = i + 1;
    }
    proof {
        assert forall|k: int| !is_first_skill(*file, skills@, k) by {
            if 0 <= k < skills@.len() {
                assert(!skill_hits(*file, skills@[k]));
            }
        }
    }
    None
}

/// Whether `actual` equals `expected` up to ASCII case, ignoring leading dots of `expected`.
fn same_name_of(actual: &Vec<char>, expected: &str) -> (r: bool)
    ensures
        r == same_name(actual@, expected@),
{
    let e = crate::text::strip_leading_chars(&crate::text::chars_of(expected), '.');
    crate::text::eq_ignore_ascii_case_chars(actual, &e)
}

/// Whether some entry of `vs` names `actual`.
fn any_same_name(actual: &Vec<char>, vs: &Vec<String>) -> (r: bool)
    ensures
        r == exists|k: int| 0 <= k < vs@.len() && same_name(actual@, #[trigger] vs@[k]@),
{
    let mut k: usize = 0;
    while k < vs.len()
        invariant
            k <= vs@.len(),
            forall|j: int| 0 <= j < k ==> !same_name(actual@, #[trigger] vs@[j]@),
        decreases vs.len() - k,
    {
        if same_name_of(actual, vs[k].as_str()) {
            return true;
        }
        k = k + 1;
    }
    false
}

/// Whether a condition holds for a file.
fn matches_condition(file: &FileItem, c: &RuleCondition) -> (r: bool)
    ensures
        r == condition_holds(*file, *c),
{
    let actual: Vec<char> = match c.field {
        RuleField::FileName => crate::text::chars_of(file.file_name.as_str()),
        RuleField::Extension => chars_or_empty(&file.extension),
        RuleField::MimeType => chars_or_empty(&file.mime_type),
        RuleField::RelativePath => crate::text::chars_of(file.relative_path.as_str()),
    };
    match c.operator {
        RuleOperator::Equals => match &c.value {
            RuleValue::Text(e) => same_name_of(&actual, e.as_str()),
            _ => false,
        },
        RuleOperator::Contains => match &c.value {
            RuleValue::Text(e) => {
                let a = crate::text::string_of(&actual);
                crate::text::contains_case_insensitive(a.as_str(), e.as_str())
            },
            _ => false,
        },
        RuleOperator::StartsWith => match &c.value {
            RuleValue::Text(e) => {
                let a = crate::text::string_of(&actual);
                let la = crate::text::chars_of(crate::text::to_lowercase(a.as_str()).as_str());
                let le = crate::text::chars_of(crate::text::to_lowercase(e.as_str()).as_str());
                crate::text::starts_with_chars(&la, &le)
            },
            _ => false,
        },
        RuleOperator::EndsWith => match &c.value {
            RuleValue::Text(e) => {
                let a = crate::text::string_of(&actual);
                let la = crate::text::chars_of(crate::text::to_lowercase(a.as_str()).as_str());
                let le = crate::text::chars_of(crate::text::to_lowercase(e.as_str()).as_str());
                crate::text::ends_with_chars(&la, &le)
            },
            _ => false,
        },
        RuleOperator::In => match &c.value {
            RuleValue::List(vs) => any_same_name(&actual, vs),
            _ => false,
        },
    }
}

/// Whether a rule hits a file.
fn rule_hits_of(file: &FileItem, r: &ClassificationRule) -> (b: bool)
    ensures
        b == rule_hits(*file, *r),
{
    if !r.enabled || r.conditions.len() == 0 {
        return false;
    }
    let mut k: usize = 0;
    while k < r.conditions.len()
        invariant
            k <= r.conditions@.len(),
            forall|j: int| 0 <= j < k ==> condition_holds(*file, #[trigger] r.conditions@[j]),
        decreases r.conditions.len() - k,
    {
        if !matches_condition(file, &r.conditions[k]) {
            return false;
        }
        k = k + 1;
    }
    true
}

/// The index of the rule that applies to the file, if any.
fn rule_candidate(file: &FileItem, rules: &Vec<ClassificationRule>) -> (r: Option<usize>)
    ensures
        match r {
            Some(i) => is_best_rule(*file, rules@, i as int),
            None => forall|i: int| !is_best_rule(*file, rules@, i),
        },
{
    let mut best: Option<usize> = None;
    let mut i: usize = 0;
    while i < rules.len()
        invariant
            i <= rules@.len(),
            match best {
                Some(b) => b < i && rule_hits(*file, rules@[b as int]) && forall|j: int|
                    0 <= j < i && rule_hits(*file, #[trigger] rules@[j]) ==> rules@[j].priority
                        < rules@[b as int].priority || (rules@[j].priority
                        == rules@[b as int].priority && b <= j),
                None => forall|j: int| 0 <= j < i ==> !rule_hits(*file, #[trigger] rules@[j]),
            },
        decreases rules.len() - i,
    {
        if rule_hits_of(file, &rules[i]) {
            match best {
                Some(b) => {
                    if rules[i].priority > rules[b].priority {
                        best = Some(i);
                    }
                },
                None => {
                    best = Some(i);
                },
            }
        }
        i = i + 1;
    }
    proof {
        if best is None {
            assert forall|k: int| !is_best_rule(*file, rules@, k) by {
                if 0 <= k < rules@.len() {
                    assert(!rule_hits(*file, rules@[k]));
                }
            }
        }
    }
    best
}

/// The keyword group a file name hits first.
fn keyword_candidate(file: &FileItem) -> (r: Option<(FileCategory, &'static str)>)
    ensures
        match r {
            Some((c, e)) => keyword_hit(unicode_lowercase(file.file_name@)) == Some((c, e@)),
            None => keyword_hit(unicode_lowercase(file.file_name@)) is None,
        },
{
    let n = crate::text::chars_of(crate::text::to_lowercase(file.file_name.as_str()).as_str());
    let has = |lit: &str| -> (b: bool)
        ensures
            b == contains_seq(n@, lit@),
        { crate::text::contains_chars(&n, &crate::text::chars_of(lit)) };
    if has("screenshot") || has("截屏") || has("截图") {
        Some((FileCategory::Images, "文件名包含截图关键词"))
    } else if has("invoice") || has("receipt") || has("发票") || has("票据") || has("收据") {
        Some((FileCategory::Documents, "文件名包含票据关键词"))
    } else if has("contract") || has("agreement") || has("合同") || has("协议") {
        Some((FileCategory::Documents, "文件名包含合同关键词"))
    } else if has("meeting") || has("minutes") || has("会议纪要") {
        Some((FileCategory::Documents, "文件名包含会议纪要关键词"))
    } else {
        None
    }
}


/// The category of a normalized extension.
fn extension_category_of(e: &Vec<char>) -> (r: Option<FileCategory>)
    ensures
        r == extension_category(e@),
{
    let is = |lit: &str| -> (b: bool)
        ensures
            b == (e@ == lit@),
        { crate::text::text_is(e, lit) };
    if is("pdf") {
        Some(FileCategory::Pdf)
    } else if is("jpg") || is("jpeg") || is("png") || is("gif") || is("webp") || is("heic") || is(
        "tiff",
    ) || is("bmp") || is("svg") {
        Some(FileCategory::Images)
    } else if is("mp4") || is("mov") || is("mkv") || is("avi") || is("webm") || is("m4v") {
        Some(FileCategory::Videos)
    } else if is("mp3") || is("wav") || is("flac") || is("aac") || is("m4a") || is("ogg") {
        Some(FileCategory::Audio)
    } else if is("zip") || is("rar") || is("7z") || is("tar") || is("gz") || is("bz2") || is("xz") {
        Some(FileCategory::Archives)
    } else if is("dmg") || is("pkg") || is("exe") || is("msi") || is("appimage") || is("deb") || is(
        "rpm",
    ) {
        Some(FileCategory::Installers)
    } else if is("rs") || is("js") || is("ts") || is("tsx") || is("jsx") || is("py") || is("go")
        || is("java") || is("kt") || is("swift") || is("c") || is("cpp") || is("h") || is("hpp")
        || is("html") || is("css") || is("json") || is("toml") || is("yaml") || is("yml") || is(
        "sql",
    ) || is("sh") {
        Some(FileCategory::Code)
    } else if is("xls") || is("xlsx") || is("csv") || is("tsv") || is("numbers") {
        Some(FileCategory::Spreadsheets)
    } else if is("ppt") || is("pptx") || is("key") {
        Some(FileCategory::Presentations)
    } else if is("txt") || is("md") || is("doc") || is("docx") || is("rtf") || is("pages") {
        Some(FileCategory::Documents)
    } else {
        None
    }
}

/// The category a MIME type suggests.
pub fn mime_category_of(m: &Vec<char>) -> (r: Option<FileCategory>)
    ensures
        r == mime_category(m@),
{
    let starts = |lit: &str| -> (b: bool)
        ensures
            b == starts_with(m@, lit@),
        { crate::text::starts_with_chars(m, &crate::text::chars_of(lit)) };
    if crate::text::text_is(m, "application/pdf") {
        Some(FileCategory::Pdf)
    } else if starts("image/") {
        Some(FileCategory::Images)
    } else if starts("video/") {
        Some(FileCategory::Videos)
    } else if starts("audio/") {
        Some(FileCategory::Audio)
    } else if starts("text/") {
        Some(FileCategory::Documents)
    } else {
        None
    }
}

/// A one-entry evidence list.
fn single_evidence(text: String) -> (r: Vec<String>)
    ensures
        r.deep_view() == seq![text@],
{
    let mut v: Vec<String> = Vec::new();
    v.push(text);
    proof {
        assert(v.deep_view() =~= seq![text@]);
    }
    v
}

/// The fallback classification from extension and MIME type.
fn classify_extension_or_mime(extension: &Vec<char>, mime: &Vec<char>) -> (r: Candidate)
    ensures
        (r.category, r.confidence, r.evidence.deep_view()) == basic_classification(extension@, mime@),
{
    let stripped = crate::text::string_of(&crate::text::strip_leading_chars(extension, '.'));
    let normalized = crate::text::to_lowercase(stripped.as_str());
    let nchars = crate::text::chars_of(normalized.as_str());
    let category = match extension_category_of(&nchars) {
        Some(c) => c,
        None => match mime_category_of(mime) {
            Some(c) => c,
            None => FileCategory::Other,
        },
    };
    if nchars.len() > 0 && category != FileCategory::Other {
        let text = String::from_str("扩展名 .").concat(normalized.as_str()).concat(" 命中本地基础分类规则");
        Candidate { category, confidence: 85, evidence: single_evidence(text) }
    } else if mime.len() > 0 && category != FileCategory::Other {
        let m = crate::text::string_of(mime);
        let text = String::from_str("MIME 类型 ").concat(m.as_str()).concat(" 命中本地基础分类规则");
        Candidate { category, confidence: 82, evidence: single_evidence(text) }
    } else {
        Candidate {
            category: FileCategory::Other,
            confidence: 20,
            evidence: single_evidence(String::from_str("未命中扩展名、MIME、关键词或 Skill，归入其他")),
        }
    }
}

/// The classifier that needs no model: skills, rules, keywords, then
/// extension and MIME type.
#[derive(Debug, Default, Clone, Copy)]
pub struct BasicClassifier;

impl BasicClassifier {
    /// Classifies one file. Symbolic links are marked as medium risk.
    pub fn classify(&self, file: &FileItem, context: &ClassificationContext) -> (r: ClassificationResult)
        ensures
            r.file == *file,
            (r.category, r.confidence, r.evidence.deep_view()) == classification_of(*file, *context),
            r.risk == (if file.is_symlink { FileRiskLevel::Medium } else { FileRiskLevel::Low }),
    {
        let candidate = classify_candidate(file, context);
        ClassificationResult {
            file: file.clone(),
            category: candidate.category,
            confidence: candidate.confidence,
            evidence: candidate.evidence,
            risk: if file.is_symlink { FileRiskLevel::Medium } else { FileRiskLevel::Low },
        }
    }
}

/// The candidate the classifier settles on.
fn classify_candidate(file: &FileItem, context: &ClassificationContext) -> (r: Candidate)
    ensures
        (r.category, r.confidence, r.evidence.deep_view()) == classification_of(*file, *context),
{
    match skill_candidate(file, &context.skills) {
        Some(i) => {
            proof {
                let c = choose|k: int| is_first_skill(*file, context.skills@, k);
                lemma_first_skill_unique(*file, context.skills@, c, i as int);
            }
            let skill = &context.skills[i];
            let category = match skill_match(file, &skill.rule) {
                Some(c) => c,
                None => FileCategory::Other,
            };
            let mut evidence: Vec<String> = Vec::new();
            evidence.push(String::from_str("命中已启用 Skill：").concat(skill.name.as_str()));
            evidence.push(String::from_str("Skill 建议优先于内置规则"));
            proof {
                assert(evidence.deep_view() =~= skill_evidence(skill.name@));
            }
            return Candidate { category, confidence: 96, evidence };
        },
        None => {},
    }
    match rule_candidate(file, &context.rules) {
        Some(i) => {
            proof {
                let c = choose|k: int| is_best_rule(*file, context.rules@, k);
                lemma_best_rule_unique(*file, context.rules@, c, i as int);
            }
            let rule = &context.rules[i];
            let text = String::from_str("命中分类规则：").concat(rule.name.as_str()).concat(
                "（优先级 ",
            ).concat(crate::text::decimal_text(rule.priority as i64).as_str()).concat("）");
            return Candidate {
                category: rule.target_category,
                confidence: 92,
                evidence: single_evidence(text),
            };
        },
        None => {},
    }
    match keyword_candidate(file) {
        Some((category, text)) => {
            return Candidate {
                category,
                confidence: 88,
                evidence: single_evidence(String::from_str(text)),
            };
        },
        None => {},
    }
    classify_extension_or_mime(&chars_or_empty(&file.extension), &chars_or_empty(&file.mime_type))
}


/// Spells out the extension literals so that they can be told apart.
proof fn lemma_extension_spellings()
    ensures
        "pdf"@.len() == 3 && "pdf"@[0] == 'p' && "pdf"@[1] == 'd' && "pdf"@[2] == 'f',
        "jpg"@.len() == 3 && "jpg"@[0] == 'j' && "jpg"@[1] == 'p' && "jpg"@[2] == 'g',
        "jpeg"@.len() == 4 && "jpeg"@[0] == 'j' && "jpeg"@[1] == 'p' && "jpeg"@[2] == 'e' && "jpeg"@[3] == 'g',
        "png"@.len() == 3 && "png"@[0] == 'p' && "png"@[1] == 'n' && "png"@[2] == 'g',
        "gif"@.len() == 3 && "gif"@[0] == 'g' && "gif"@[1] == 'i' && "gif"@[2] == 'f',
        "webp"@.len() == 4 && "webp"@[0] == 'w' && "webp"@[1] == 'e' && "webp"@[2] == 'b' && "webp"@[3] == 'p',
        "heic"@.len() == 4 && "heic"@[0] == 'h' && "heic"@[1] == 'e' && "heic"@[2] == 'i' && "heic"@[3] == 'c',
        "tiff"@.len() == 4 && "tiff"@[0] == 't' && "tiff"@[1] == 'i' && "tiff"@[2] == 'f' && "tiff"@[3] == 'f',
        "bmp"@.len() == 3 && "bmp"@[0] == 'b' && "bmp"@[1] == 'm' && "bmp"@[2] == 'p',
        "svg"@.len() == 3 && "svg"@[0] == 's' && "svg"@[1] == 'v' && "svg"@[2] == 'g',
        "mp4"@.len() == 3 && "mp4"@[0] == 'm' && "mp4"@[1] == 'p' && "mp4"@[2] == '4',
        "mov"@.len() == 3 && "mov"@[0] == 'm' && "mov"@[1] == 'o' && "mov"@[2] == 'v',
        "mkv"@.len() == 3 && "mkv"@[0] == 'm' && "mkv"@[1] == 'k' && "mkv"@[2] == 'v',
        "avi"@.len() == 3 && "avi"@[0] == 'a' && "avi"@[1] == 'v' && "avi"@[2] == 'i',
        "webm"@.len() == 4 && "webm"@[0] == 'w' && "webm"@[1] == 'e' && "webm"@[2] == 'b' && "webm"@[3] == 'm',
        "m4v"@.len() == 3 && "m4v"@[0] == 'm' && "m4v"@[1] == '4' && "m4v"@[2] == 'v',
        "mp3"@.len() == 3 && "mp3"@[0] == 'm' && "mp3"@[1] == 'p' && "mp3"@[2] == '3',
        "wav"@.len() == 3 && "wav"@[0] == 'w' && "wav"@[1] == 'a' && "wav"@[2] == 'v',
        "flac"@.len() == 4 && "flac"@[0] == 'f' && "flac"@[1] == 'l' && "flac"@[2] == 'a' && "flac"@[3] == 'c',
        "aac"@.len() == 3 && "aac"@[0] == 'a' && "aac"@[1] == 'a' && "aac"@[2] == 'c',
        "m4a"@.len() == 3 && "m4a"@[0] == 'm' && "m4a"@[1] == '4' && "m4a"@[2] == 'a',
        "ogg"@.len() == 3 && "ogg"@[0] == 'o' && "ogg"@[1] == 'g' && "ogg"@[2] == 'g',
        "zip"@.len() == 3 && "zip"@[0] == 'z' && "zip"@[1] == 'i' && "zip"@[2] == 'p',
        "rar"@.len() == 3 && "rar"@[0] == 'r' && "rar"@[1] == 'a' && "rar"@[2] == 'r',
        "7z"@.len() == 2 && "7z"@[0] == '7' && "7z"@[1] == 'z',
        "tar"@.len() == 3 && "tar"@[0] == 't' && "tar"@[1] == 'a' && "tar"@[2] == 'r',
        "gz"@.len() == 2 && "gz"@[0] == 'g' && "gz"@[1] == 'z',
        "bz2"@.len() == 3 && "bz2"@[0] == 'b' && "bz2"@[1] == 'z' && "bz2"@[2] == '2',
        "xz"@.len() == 2 && "xz"@[0] == 'x' && "xz"@[1] == 'z',
        "dmg"@.len() == 3 && "dmg"@[0] == 'd' && "dmg"@[1] == 'm' && "dmg"@[2] == 'g',
        "pkg"@.len() == 3 && "pkg"@[0] == 'p' && "pkg"@[1] == 'k' && "pkg"@[2] == 'g',
        "exe"@.len() == 3 && "exe"@[0] == 'e' && "exe"@[1] == 'x' && "exe"@[2] == 'e',
        "msi"@.len() == 3 && "msi"@[0] == 'm' && "msi"@[1] == 's' && "msi"@[2] == 'i',
        "appimage"@.len() == 8 && "appimage"@[0] == 'a' && "appimage"@[1] == 'p' && "appimage"@[2] == 'p' && "appimage"@[3] == 'i' && "appimage"@[4] == 'm' && "appimage"@[5] == 'a' && "appimage"@[6] == 'g' && "appimage"@[7] == 'e',
        "deb"@.len() == 3 && "deb"@[0] == 'd' && "deb"@[1] == 'e' && "deb"@[2] == 'b',
        "rpm"@.len() == 3 && "rpm"@[0] == 'r' && "rpm"@[1] == 'p' && "rpm"@[2] == 'm',
        "rs"@.len() == 2 && "rs"@[0] == 'r' && "rs"@[1] == 's',
        "js"@.len() == 2 && "js"@[0] == 'j' && "js"@[1] == 's',
        "ts"@.len() == 2 && "ts"@[0] == 't' && "ts"@[1] == 's',
        "tsx"@.len() == 3 && "tsx"@[0] == 't' && "tsx"@[1] == 's' && "tsx"@[2] == 'x',
        "jsx"@.len() == 3 && "jsx"@[0] == 'j' && "jsx"@[1] == 's' && "jsx"@[2] == 'x',
        "py"@.len() == 2 && "py"@[0] == 'p' && "py"@[1] == 'y',
        "go"@.len() == 2 && "go"@[0] == 'g' && "go"@[1] == 'o',
        "java"@.len() == 4 && "java"@[0] == 'j' && "java"@[1] == 'a' && "java"@[2] == 'v' && "java"@[3] == 'a',
        "kt"@.len() == 2 && "kt"@[0] == 'k' && "kt"@[1] == 't',
        "swift"@.len() == 5 && "swift"@[0] == 's' && "swift"@[1] == 'w' && "swift"@[2] == 'i' && "swift"@[3] == 'f' && "swift"@[4] == 't',
        "c"@.len() == 1 && "c"@[0] == 'c',
        "cpp"@.len() == 3 && "cpp"@[0] == 'c' && "cpp"@[1] == 'p' && "cpp"@[2] == 'p',
        "h"@.len() == 1 && "h"@[0] == 'h',
        "hpp"@.len() == 3 && "hpp"@[0] == 'h' && "hpp"@[1] == 'p' && "hpp"@[2] == 'p',
        "html"@.len() == 4 && "html"@[0] == 'h' && "html"@[1] == 't' && "html"@[2] == 'm' && "html"@[3] == 'l',
        "css"@.len() == 3 && "css"@[0] == 'c' && "css"@[1] == 's' && "css"@[2] == 's',
        "json"@.len() == 4 && "json"@[0] == 'j' && "json"@[1] == 's' && "json"@[2] == 'o' && "json"@[3] == 'n',
        "toml"@.len() == 4 && "toml"@[0] == 't' && "toml"@[1] == 'o' && "toml"@[2] == 'm' && "toml"@[3] == 'l',
        "yaml"@.len() == 4 && "yaml"@[0] == 'y' && "yaml"@[1] == 'a' && "yaml"@[2] == 'm' && "yaml"@[3] == 'l',
        "yml"@.len() == 3 && "yml"@[0] == 'y' && "yml"@[1] == 'm' && "yml"@[2] == 'l',
        "sql"@.len() == 3 && "sql"@[0] == 's' && "sql"@[1] == 'q' && "sql"@[2] == 'l',
        "sh"@.len() == 2 && "sh"@[0] == 's' && "sh"@[1] == 'h',
        "xls"@.len() == 3 && "xls"@[0] == 'x' && "xls"@[1] == 'l' && "xls"@[2] == 's',
        "xlsx"@.len() == 4 && "xlsx"@[0] == 'x' && "xlsx"@[1] == 'l' && "xlsx"@[2] == 's' && "xlsx"@[3] == 'x',
        "csv"@.len() == 3 && "csv"@[0] == 'c' && "csv"@[1] == 's' && "csv"@[2] == 'v',
        "tsv"@.len() == 3 && "tsv"@[0] == 't' && "tsv"@[1] == 's' && "tsv"@[2] == 'v',
        "numbers"@.len() == 7 && "numbers"@[0] == 'n' && "numbers"@[1] == 'u' && "numbers"@[2] == 'm' && "numbers"@[3] == 'b' && "numbers"@[4] == 'e' && "numbers"@[5] == 'r' && "numbers"@[6] == 's',
        "ppt"@.len() == 3 && "ppt"@[0] == 'p' && "ppt"@[1] == 'p' && "ppt"@[2] == 't',
        "pptx"@.len() == 4 && "pptx"@[0] == 'p' && "pptx"@[1] == 'p' && "pptx"@[2] == 't' && "pptx"@[3] == 'x',
        "key"@.len() == 3 && "key"@[0] == 'k' && "key"@[1] == 'e' && "key"@[2] == 'y',
        "txt"@.len() == 3 && "txt"@[0] == 't' && "txt"@[1] == 'x' && "txt"@[2] == 't',
        "md"@.len() == 2 && "md"@[0] == 'm' && "md"@[1] == 'd',
        "doc"@.len() == 3 && "doc"@[0] == 'd' && "doc"@[1] == 'o' && "doc"@[2] == 'c',
        "docx"@.len() == 4 && "docx"@[0] == 'd' && "docx"@[1] == 'o' && "docx"@[2] == 'c' && "docx"@[3] == 'x',
        "rtf"@.len() == 3 && "rtf"@[0] == 'r' && "rtf"@[1] == 't' && "rtf"@[2] == 'f',
        "pages"@.len() == 5 && "pages"@[0] == 'p' && "pages"@[1] == 'a' && "pages"@[2] == 'g' && "pages"@[3] == 'e' && "pages"@[4] == 's',
{
    reveal_strlit("pdf");
    reveal_strlit("jpg");
    reveal_strlit("jpeg");
    reveal_strlit("png");
    reveal_strlit("gif");
    reveal_strlit("webp");
    reveal_strlit("heic");
    reveal_strlit("tiff");
    reveal_strlit("bmp");
    reveal_strlit("svg");
    reveal_strlit("mp4");
    reveal_strlit("mov");
    reveal_strlit("mkv");
    reveal_strlit("avi");
    reveal_strlit("webm");
    reveal_strlit("m4v");
    reveal_strlit("mp3");
    reveal_strlit("wav");
    reveal_strlit("flac");
    reveal_strlit("aac");
    reveal_strlit("m4a");
    reveal_strlit("ogg");
    reveal_strlit("zip");
    reveal_strlit("rar");
    reveal_strlit("7z");
    reveal_strlit("tar");
    reveal_strlit("gz");
    reveal_strlit("bz2");
    reveal_strlit("xz");
    reveal_strlit("dmg");
    reveal_strlit("pkg");
    reveal_strlit("exe");
    reveal_strlit("msi");
    reveal_strlit("appimage");
    reveal_strlit("deb");
    reveal_strlit("rpm");
    reveal_strlit("rs");
    reveal_strlit("js");
    reveal_strlit("ts");
    reveal_strlit("tsx");
    reveal_strlit("jsx");
    reveal_strlit("py");
    reveal_strlit("go");
    reveal_strlit("java");
    reveal_strlit("kt");
    reveal_strlit("swift");
    reveal_strlit("c");
    reveal_strlit("cpp");
    reveal_strlit("h");
    reveal_strlit("hpp");
    reveal_strlit("html");
    reveal_strlit("css");
    reveal_strlit("json");
    reveal_strlit("toml");
    reveal_strlit("yaml");
    reveal_strlit("yml");
    reveal_strlit("sql");
    reveal_strlit("sh");
    reveal_strlit("xls");
    reveal_strlit("xlsx");
    reveal_strlit("csv");
    reveal_strlit("tsv");
    reveal_strlit("numbers");
    reveal_strlit("ppt");
    reveal_strlit("pptx");
    reveal_strlit("key");
    reveal_strlit("txt");
    reveal_strlit("md");
    reveal_strlit("doc");
    reveal_strlit("docx");
    reveal_strlit("rtf");
    reveal_strlit("pages");
}

/// The table of known extensions: each normalized extension of a group
/// names that group's category, and only non-empty extensions are known.
pub proof fn law_extension_table(e: Seq<char>)
    ensures
        (e == "pdf"@) ==> extension_category(e) == Some(FileCategory::Pdf),
        (e == "jpg"@ || e == "jpeg"@ || e == "png"@ || e == "gif"@ || e == "webp"@
            || e == "heic"@ || e == "tiff"@ || e == "bmp"@ || e == "svg"@) ==> extension_category(e) == Some(FileCategory::Images),
        (e == "mp4"@ || e == "mov"@ || e == "mkv"@ || e == "avi"@ || e == "webm"@
            || e == "m4v"@) ==> extension_category(e) == Some(FileCategory::Videos),
        (e == "mp3"@ || e == "wav"@ || e == "flac"@ || e == "aac"@ || e == "m4a"@
            || e == "ogg"@) ==> extension_category(e) == Some(FileCategory::Audio),
        (e == "zip"@ || e == "rar"@ || e == "7z"@ || e == "tar"@ || e == "gz"@ || e == "bz2"@
            || e == "xz"@) ==> extension_category(e) == Some(FileCategory::Archives),
        (e == "dmg"@ || e == "pkg"@ || e == "exe"@ || e == "msi"@ || e == "appimage"@
            || e == "deb"@ || e == "rpm"@) ==> extension_category(e) == Some(FileCategory::Installers),
        (e == "rs"@ || e == "js"@ || e == "ts"@ || e == "tsx"@ || e == "jsx"@ || e == "py"@
            || e == "go"@ || e == "java"@ || e == "kt"@ || e == "swift"@ || e == "c"@
            || e == "cpp"@ || e == "h"@ || e == "hpp"@ || e == "html"@ || e == "css"@
            || e == "json"@ || e == "toml"@ || e == "yaml"@ || e == "yml"@ || e == "sql"@
            || e == "sh"@) ==> extension_category(e) == Some(FileCategory::Code),
        (e == "xls"@ || e == "xlsx"@ || e == "csv"@ || e == "tsv"@ || e == "numbers"@) ==> extension_category(e) == Some(FileCategory::Spreadsheets),
        (e == "ppt"@ || e == "pptx"@ || e == "key"@) ==> extension_category(e) == Some(FileCategory::Presentations),
        (e == "txt"@ || e == "md"@ || e == "doc"@ || e == "docx"@ || e == "rtf"@
            || e == "pages"@) ==> extension_category(e) == Some(FileCategory::Documents),
        extension_category(e) is Some ==> e.len() > 0,
{
    lemma_extension_spellings();
}


/// A file that no enabled skill, no rule and no file-name keyword claims is
/// classified by its normalized extension (leading dots dropped, lower-cased)
/// when it is a known one: that group's category, at 85 percent, with the
/// extension named in the evidence.
pub proof fn law_extension_groups_classify(file: FileItem, ctx: ClassificationContext)
    requires
        forall|i: int| 0 <= i < ctx.skills@.len() ==> !skill_hits(file, #[trigger] ctx.skills@[i]),
        forall|i: int| 0 <= i < ctx.rules@.len() ==> !rule_hits(file, #[trigger] ctx.rules@[i]),
        keyword_hit(unicode_lowercase(file.file_name@)) is None,
    ensures
        ({
            let e = unicode_lowercase(strip_leading(text_or_empty(file.extension), '.'));
            let found = seq!["扩展名 ."@ + e + " 命中本地基础分类规则"@];
            &&& (e == "pdf"@)
                ==> classification_of(file, ctx) == (FileCategory::Pdf, 85u32, found)
            &&& (e == "jpg"@ || e == "jpeg"@ || e == "png"@ || e == "gif"@ || e == "webp"@
                || e == "heic"@ || e == "tiff"@ || e == "bmp"@ || e == "svg"@)
                ==> classification_of(file, ctx) == (FileCategory::Images, 85u32, found)
            &&& (e == "mp4"@ || e == "mov"@ || e == "mkv"@ || e == "avi"@ || e == "webm"@
                || e == "m4v"@)
                ==> classification_of(file, ctx) == (FileCategory::Videos, 85u32, found)
            &&& (e == "mp3"@ || e == "wav"@ || e == "flac"@ || e == "aac"@ || e == "m4a"@
                || e == "ogg"@)
                ==> classification_of(file, ctx) == (FileCategory::Audio, 85u32, found)
            &&& (e == "zip"@ || e == "rar"@ || e == "7z"@ || e == "tar"@ || e == "gz"@
                || e == "bz2"@ || e == "xz"@)
                ==> classification_of(file, ctx) == (FileCategory::Archives, 85u32, found)
            &&& (e == "dmg"@ || e == "pkg"@ || e == "exe"@ || e == "msi"@ || e == "appimage"@
                || e == "deb"@ || e == "rpm"@)
                ==> classification_of(file, ctx) == (FileCategory::Installers, 85u32, found)
            &&& (e == "rs"@ || e == "js"@ || e == "ts"@ || e == "tsx"@ || e == "jsx"@
                || e == "py"@ || e == "go"@ || e == "java"@ || e == "kt"@ || e == "swift"@
                || e == "c"@ || e == "cpp"@ || e == "h"@ || e == "hpp"@ || e == "html"@
                || e == "css"@ || e == "json"@ || e == "toml"@ || e == "yaml"@ || e == "yml"@
                || e == "sql"@ || e == "sh"@)
                ==> classification_of(file, ctx) == (FileCategory::Code, 85u32, found)
            &&& (e == "xls"@ || e == "xlsx"@ || e == "csv"@ || e == "tsv"@ || e == "numbers"@)
                ==> classification_of(file, ctx) == (FileCategory::Spreadsheets, 85u32, found)
            &&& (e == "ppt"@ || e == "pptx"@ || e == "key"@)
                ==> classification_of(file, ctx) == (FileCategory::Presentations, 85u32, found)
            &&& (e == "txt"@ || e == "md"@ || e == "doc"@ || e == "docx"@ || e == "rtf"@
                || e == "pages"@)
                ==> classification_of(file, ctx) == (FileCategory::Documents, 85u32, found)
        }),
{
    let e = unicode_lowercase(strip_leading(text_or_empty(file.extension), '.'));
    law_extension_table(e);
    assert(!exists|i: int| is_first_skill(file, ctx.skills@, i));
    assert(!exists|i: int| is_best_rule(file, ctx.rules@, i));
}


/// `x` is a suffix of `a`: `a` is some text followed by `x`.
proof fn lemma_suffix_split(a: Seq<char>, x: Seq<char>)
    ensures
        ends_with(a, x) <==> exists|p: Seq<char>| a == #[trigger] (p + x),
{
    if ends_with(a, x) {
        let p = a.subrange(0, a.len() - x.len());
        assert(a =~= p + x);
    }
    if exists|p: Seq<char>| a == #[trigger] (p + x) {
        let p = choose|p: Seq<char>| a == #[trigger] (p + x);
        assert(a.subrange(a.len() - x.len(), a.len() as int) =~= x);
    }
}

/// `x` is a prefix of `a`: `a` is `x` followed by some text.
proof fn lemma_prefix_split(a: Seq<char>, x: Seq<char>)
    ensures
        starts_with(a, x) <==> exists|q: Seq<char>| a == #[trigger] (x + q),
{
    if starts_with(a, x) {
        let q = a.subrange(x.len() as int, a.len() as int);
        assert(a =~= x + q);
    }
    if exists|q: Seq<char>| a == #[trigger] (x + q) {
        let q = choose|q: Seq<char>| a == #[trigger] (x + q);
        assert(a.subrange(0, x.len() as int) =~= x);
    }
}

/// `x` occurs in `a`: `a` is some text, then `x`, then some more text.
proof fn lemma_infix_split(a: Seq<char>, x: Seq<char>)
    ensures
        contains_seq(a, x) <==> exists|p: Seq<char>, q: Seq<char>| a == #[trigger] (p + x + q),
{
    if contains_seq(a, x) {
        let i = choose|i: int| 0 <= i && i + x.len() <= a.len() && #[trigger] a.subrange(i, i + x.len()) == x;
        let p = a.subrange(0, i);
        let q = a.subrange(i + x.len(), a.len() as int);
        assert(a =~= p + x + q);
    }
    if exists|p: Seq<char>, q: Seq<char>| a == #[trigger] (p + x + q) {
        let (p, q) = choose|p: Seq<char>, q: Seq<char>| a == #[trigger] (p + x + q);
        assert(a.subrange(p.len() as int, (p.len() + x.len()) as int) =~= x);
    }
}

/// A text condition compares the lower-cased field with the lower-cased
/// value: `EndsWith` holds exactly when the field ends with the value,
/// `StartsWith` exactly when it begins with it, `Contains` exactly when the
/// value occurs in it.
pub proof fn law_text_conditions(file: FileItem, c: RuleCondition, v: String)
    requires
        c.value == RuleValue::Text(v),
    ensures
        ({
            let a = unicode_lowercase(field_text(file, c.field));
            let x = unicode_lowercase(v@);
            &&& c.operator == RuleOperator::EndsWith ==> (condition_holds(file, c) <==> exists|p: Seq<char>|
                a == #[trigger] (p + x))
            &&& c.operator == RuleOperator::StartsWith ==> (condition_holds(file, c) <==> exists|q: Seq<char>|
                a == #[trigger] (x + q))
            &&& c.operator == RuleOperator::Contains ==> (condition_holds(file, c) <==> exists|
                p: Seq<char>,
                q: Seq<char>,
            | a == #[trigger] (p + x + q))
        }),
{
    let a = unicode_lowercase(field_text(file, c.field));
    let x = unicode_lowercase(v@);
    lemma_suffix_split(a, x);
    lemma_prefix_split(a, x);
    lemma_infix_split(a, x);
}

/// A file that no enabled skill claims, with a single enabled rule whose
/// conditions all hold, is classified by that rule: its target category at
/// 92 percent, with the rule named in the evidence.
pub proof fn law_single_rule_decides(file: FileItem, ctx: ClassificationContext)
    requires
        forall|i: int| 0 <= i < ctx.skills@.len() ==> !skill_hits(file, #[trigger] ctx.skills@[i]),
        ctx.rules@.len() == 1,
        rule_hits(file, ctx.rules@[0]),
    ensures
        classification_of(file, ctx) == (ctx.rules@[0].target_category, 92u32, rule_evidence(ctx.rules@[0])),
{
    assert(!exists|i: int| is_first_skill(file, ctx.skills@, i));
    assert(is_best_rule(file, ctx.rules@, 0));
    let i = choose|i: int| is_best_rule(file, ctx.rules@, i);
    lemma_best_rule_unique(file, ctx.rules@, i, 0);
}


/// A skill's matcher names the skill's own category, and it accepts a file
/// only if each condition it names holds: the extension equals the file's
/// up to ASCII case (leading dots of the matcher's ignored), the text occurs
/// in the lower-cased file name (lower-cased itself), the MIME type begins
/// with the prefix.
pub proof fn law_skill_matcher_conditions(file: FileItem, rule: SkillRule)
    requires
        skill_category(file, rule) is Some,
    ensures
        skill_category(file, rule) == Some(rule.category),
        rule.extension is Some ==> (file.extension matches Some(a) && eq_ignore_ascii_case(
            a@,
            strip_leading(rule.extension.unwrap()@, '.'),
        )),
        rule.file_name_contains is Some ==> contains_seq(
            unicode_lowercase(file.file_name@),
            unicode_lowercase(rule.file_name_contains.unwrap()@),
        ),
        rule.mime_prefix is Some ==> (file.mime_type matches Some(m) && starts_with(
            m@,
            rule.mime_prefix.unwrap()@,
        )),
{
}

/// The first enabled skill that accepts a file decides its classification,
/// whatever the rules say: the skill's category at 96 percent, with the skill
/// named in the evidence.
pub proof fn law_first_skill_decides(file: FileItem, ctx: ClassificationContext, i: int)
    requires
        0 <= i < ctx.skills@.len(),
        skill_hits(file, ctx.skills@[i]),
        forall|j: int| 0 <= j < i ==> !skill_hits(file, #[trigger] ctx.skills@[j]),
    ensures
        classification_of(file, ctx) == (
            ctx.skills@[i].rule.category,
            96u32,
            seq!["命中已启用 Skill："@ + ctx.skills@[i].name@, "Skill 建议优先于内置规则"@],
        ),
{
    assert(is_first_skill(file, ctx.skills@, i));
    let k = choose|k: int| is_first_skill(file, ctx.skills@, k);
    lemma_first_skill_unique(file, ctx.skills@, k, i);
}

/// Without a skill that accepts the file, the hitting rule of highest
/// priority decides, the earliest of them on a tie: its target category at
/// 92 percent, with the rule and its priority named in the evidence.
pub proof fn law_highest_priority_rule_decides(file: FileItem, ctx: ClassificationContext, i: int)
    requires
        forall|j: int| 0 <= j < ctx.skills@.len() ==> !skill_hits(file, #[trigger] ctx.skills@[j]),
        0 <= i < ctx.rules@.len(),
        rule_hits(file, ctx.rules@[i]),
        forall|j: int|
            0 <= j < ctx.rules@.len() && j != i && rule_hits(file, #[trigger] ctx.rules@[j]) ==> ctx.rules@[j].priority
                < ctx.rules@[i].priority || (ctx.rules@[j].priority == ctx.rules@[i].priority && i < j),
    ensures
        classification_of(file, ctx) == (
            ctx.rules@[i].target_category,
            92u32,
            seq![
                "命中分类规则："@ + ctx.rules@[i].name@ + "（优先级 "@ + decimal(ctx.rules@[i].priority as int)
                    + "）"@,
            ],
        ),
{
    assert(!exists|k: int| is_first_skill(file, ctx.skills@, k));
    assert(is_best_rule(file, ctx.rules@, i));
    let k = choose|k: int| is_best_rule(file, ctx.rules@, k);
    lemma_best_rule_unique(file, ctx.rules@, k, i);
}

/// Without a skill or a rule for the file, keywords in its lower-cased name
/// decide, at 88 percent: screenshot words make it an image; invoice and
/// receipt words, contract words, or meeting-minutes words a document, with
/// the matched group named in the evidence.
pub proof fn law_name_keywords_decide(file: FileItem, ctx: ClassificationContext)
    requires
        forall|j: int| 0 <= j < ctx.skills@.len() ==> !skill_hits(file, #[trigger] ctx.skills@[j]),
        forall|j: int| 0 <= j < ctx.rules@.len() ==> !rule_hits(file, #[trigger] ctx.rules@[j]),
    ensures
        ({
            let n = unicode_lowercase(file.file_name@);
            let shot = contains_seq(n, "screenshot"@) || contains_seq(n, "截屏"@) || contains_seq(n, "截图"@);
            let bill = contains_seq(n, "invoice"@) || contains_seq(n, "receipt"@) || contains_seq(n, "发票"@)
                || contains_seq(n, "票据"@) || contains_seq(n, "收据"@);
            let deal = contains_seq(n, "contract"@) || contains_seq(n, "agreement"@) || contains_seq(n, "合同"@)
                || contains_seq(n, "协议"@);
            let minutes = contains_seq(n, "meeting"@) || contains_seq(n, "minutes"@) || contains_seq(
                n,
                "会议纪要"@,
            );
            &&& shot ==> classification_of(file, ctx) == (FileCategory::Images, 88u32, seq!["文件名包含截图关键词"@])
            &&& !shot && bill ==> classification_of(file, ctx) == (
                FileCategory::Documents,
                88u32,
                seq!["文件名包含票据关键词"@],
            )
            &&& !shot && !bill && deal ==> classification_of(file, ctx) == (
                FileCategory::Documents,
                88u32,
                seq!["文件名包含合同关键词"@],
            )
            &&& !shot && !bill && !deal && minutes ==> classification_of(file, ctx) == (
                FileCategory::Documents,
                88u32,
                seq!["文件名包含会议纪要关键词"@],
            )
        }),
{
    assert(!exists|k: int| is_first_skill(file, ctx.skills@, k));
    assert(!exists|k: int| is_best_rule(file, ctx.rules@, k));
}

/// The MIME types the classifier knows: `application/pdf` is a PDF, and a
/// type under `image/`, `video/`, `audio/` or `text/` is an image, a video,
/// audio or a document.
pub proof fn law_mime_table(m: Seq<char>)
    ensures
        m == "application/pdf"@ ==> mime_category(m) == Some(FileCategory::Pdf),
        starts_with(m, "image/"@) ==> mime_category(m) == Some(FileCategory::Images),
        starts_with(m, "video/"@) ==> mime_category(m) == Some(FileCategory::Videos),
        starts_with(m, "audio/"@) ==> mime_category(m) == Some(FileCategory::Audio),
        starts_with(m, "text/"@) ==> mime_category(m) == Some(FileCategory::Documents),
{
    reveal_strlit("application/pdf");
    reveal_strlit("image/");
    reveal_strlit("video/");
    reveal_strlit("audio/");
    reveal_strlit("text/");
    assert("application/pdf"@.len() == 15 && "application/pdf"@[0] == 'a' && "application/pdf"@[1] == 'p');
    assert("image/"@.len() == 6 && "image/"@[0] == 'i');
    assert("video/"@.len() == 6 && "video/"@[0] == 'v');
    assert("audio/"@.len() == 6 && "audio/"@[0] == 'a' && "audio/"@[1] == 'u');
    assert("text/"@.len() == 5 && "text/"@[0] == 't');
    if starts_with(m, "image/"@) {
        assert(m[0] == "image/"@[0]);
    }
    if starts_with(m, "video/"@) {
        assert(m[0] == "video/"@[0]);
    }
    if starts_with(m, "audio/"@) {
        assert(m[0] == "audio/"@[0] && m[1] == "audio/"@[1]);
    }
    if starts_with(m, "text/"@) {
        assert(m[0] == "text/"@[0]);
    }
}

/// A file that no skill, rule or keyword claims and whose extension is not a
/// known one is classified by its MIME type when that is a known one: at 85
/// percent with the extension in the evidence if it has one, else at 82
/// percent with the MIME type in the evidence. With neither known it is
/// other, at 20 percent.
pub proof fn law_mime_fallback(file: FileItem, ctx: ClassificationContext)
    requires
        forall|j: int| 0 <= j < ctx.skills@.len() ==> !skill_hits(file, #[trigger] ctx.skills@[j]),
        forall|j: int| 0 <= j < ctx.rules@.len() ==> !rule_hits(file, #[trigger] ctx.rules@[j]),
        keyword_hit(unicode_lowercase(file.file_name@)) is None,
        extension_category(unicode_lowercase(strip_leading(text_or_empty(file.extension), '.'))) is None,
    ensures
        ({
            let e = unicode_lowercase(strip_leading(text_or_empty(file.extension), '.'));
            let m = text_or_empty(file.mime_type);
            &&& (mime_category(m) is Some && e.len() > 0) ==> classification_of(file, ctx) == (
                mime_category(m).unwrap(),
                85u32,
                seq!["扩展名 ."@ + e + " 命中本地基础分类规则"@],
            )
            &&& (mime_category(m) is Some && e.len() == 0) ==> classification_of(file, ctx) == (
                mime_category(m).unwrap(),
                82u32,
                seq!["MIME 类型 "@ + m + " 命中本地基础分类规则"@],
            )
            &&& mime_category(m) is None ==> classification_of(file, ctx) == (
                FileCategory::Other,
                20u32,
                seq!["未命中扩展名、MIME、关键词或 Skill，归入其他"@],
            )
        }),
{
    assert(!exists|k: int| is_first_skill(file, ctx.skills@, k));
    assert(!exists|k: int| is_best_rule(file, ctx.rules@, k));
    reveal_strlit("application/pdf");
    reveal_strlit("image/");
    reveal_strlit("video/");
    reveal_strlit("audio/");
    reveal_strlit("text/");
    assert("application/pdf"@.len() == 15 && "image/"@.len() == 6 && "video/"@.len() == 6);
    assert("audio/"@.len() == 6 && "text/"@.len() == 5);
}

} // verus!
