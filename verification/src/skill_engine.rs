//! Skills: habit rules that suggest categories, and proposals of new
//! skills learned from the user's decisions.

use vstd::prelude::*;
use crate::model::{
    category_folder, FileCategory, Skill, SkillRule, SkillUpdateProposal, UserDecision,
    UserDecisionEvent,
};
use crate::text::{
    contains_seq, eq_ignore_ascii_case, starts_with, strip_leading, trim, unicode_lowercase,
};
use crate::path::{file_name, parent_components, is_normal};

verus! {

broadcast use crate::text::lemma_chars_deep_view;

/// The view of an optional text.
pub open spec fn opt_view(o: Option<String>) -> Option<Seq<char>> {
    match o {
        Some(s) => Some(s@),
        None => None,
    }
}

/// An extension without surrounding whitespace and leading dots, lower-cased;
/// absent when nothing is left.
pub open spec fn normalized_extension(value: Option<Seq<char>>) -> Option<Seq<char>> {
    match value {
        Some(v) => {
            let n = unicode_lowercase(strip_leading(trim(v), '.'));
            if n.len() > 0 {
                Some(n)
            } else {
                None
            }
        },
        None => None,
    }
}

/// The index of the first `c` in `s`, or -1.
pub open spec fn first_index_of(s: Seq<char>, c: char) -> int
    decreases s.len(),
{
    if s.len() == 0 {
        -1
    } else if s[0] == c {
        0
    } else {
        let k = first_index_of(s.drop_first(), c);
        if k < 0 {
            -1
        } else {
            k + 1
        }
    }
}

/// The type part of a MIME type with its slash (`image/png` gives `image/`);
/// absent without a slash or with nothing before it.
pub open spec fn mime_prefix(value: Seq<char>) -> Option<Seq<char>> {
    let k = first_index_of(value, '/');
    if k <= 0 {
        None
    } else {
        Some(value.subrange(0, k).push('/'))
    }
}

/// The name of the `Debug` form of a decision.
pub open spec fn decision_name(d: UserDecision) -> Seq<char> {
    match d {
        UserDecision::Accepted => "Accepted"@,
        UserDecision::Rejected => "Rejected"@,
        UserDecision::EditedDestination => "EditedDestination"@,
        UserDecision::RenamedFolder => "RenamedFolder"@,
        UserDecision::RenamedCategory => "RenamedCategory"@,
    }
}

/// The folder hint learned from where the user put a file: the new file
/// name when it was renamed, else the name of the folder it went to.
pub open spec fn destination_hint(e: UserDecisionEvent) -> Option<Seq<char>> {
    match e.final_destination {
        Some(d) => match file_name(d@) {
            Some(final_name) => if final_name == e.file_name@ {
                match parent_components(d@) {
                    Some(pc) => if pc.len() > 0 && is_normal(pc.last()) {
                        Some(pc.last())
                    } else {
                        None
                    },
                    None => None,
                }
            } else {
                Some(final_name)
            },
            None => None,
        },
        None => None,
    }
}

/// The first part of `s`, split at characters that are not alphanumeric,
/// with at least two characters; `cur` is the part being read.
pub open spec fn first_long_part(s: Seq<char>, cur: Seq<char>) -> Option<Seq<char>>
    decreases s.len(),
{
    if s.len() == 0 {
        if cur.len() >= 2 {
            Some(cur)
        } else {
            None
        }
    } else if !crate::text::unicode_alphanumeric(s[0]) {
        if cur.len() >= 2 {
            Some(cur)
        } else {
            first_long_part(s.drop_first(), Seq::empty())
        }
    } else {
        first_long_part(s.drop_first(), cur.push(s[0]))
    }
}

/// The text before the first `.` of a file name (all of it without a dot).
pub open spec fn before_first_dot(name: Seq<char>) -> Seq<char> {
    let k = first_index_of(name, '.');
    if k < 0 {
        name
    } else {
        name.subrange(0, k)
    }
}

/// A keyword of a file name: the first alphanumeric run of at least two
/// characters in its trimmed stem, lower-cased.
pub open spec fn file_name_keyword(name: Seq<char>) -> Option<Seq<char>> {
    match first_long_part(trim(before_first_dot(name)), Seq::empty()) {
        Some(p) => Some(unicode_lowercase(p)),
        None => None,
    }
}

/// A decision event yields a proposal.
pub open spec fn proposes(e: UserDecisionEvent) -> bool {
    &&& e.decision != UserDecision::Rejected
    &&& e.final_category is Some
    &&& (normalized_extension(opt_view(e.extension)) is Some || file_name_keyword(e.file_name@) is Some)
}

/// The MIME prefix a proposal records.
pub open spec fn proposal_mime_prefix(e: UserDecisionEvent) -> Option<Seq<char>> {
    match e.mime_type {
        Some(m) => mime_prefix(m@),
        None => None,
    }
}

/// `p` is the proposal learned from `e`: an extension rule when the event
/// has an extension, else a file-name keyword rule.
pub open spec fn is_proposal_for(p: SkillUpdateProposal, e: UserDecisionEvent) -> bool {
    let category = e.final_category.unwrap();
    &&& p.enabled
    &&& p.rule.category == category
    &&& opt_view(p.rule.destination_hint) == destination_hint(e)
    &&& opt_view(p.rule.mime_prefix) == proposal_mime_prefix(e)
    &&& p.source_event_ids@ == seq![e.event_id]
    &&& match normalized_extension(opt_view(e.extension)) {
        Some(ext) => {
            &&& p.name@ == "."@ + ext + " 文件进入 "@ + category_folder(category)
            &&& opt_view(p.rule.extension) == Some(ext)
            &&& p.rule.file_name_contains is None
            &&& p.evidence.deep_view() == seq![
                "用户决策 "@ + decision_name(e.decision) + "：同扩展名 ."@ + ext,
            ]
        },
        None => {
            let kw = file_name_keyword(e.file_name@).unwrap();
            &&& p.name@ == "文件名包含 "@ + kw + " 进入 "@ + category_folder(category)
            &&& p.rule.extension is None
            &&& opt_view(p.rule.file_name_contains) == Some(kw)
            &&& p.evidence.deep_view() == seq![
                "用户决策 "@ + decision_name(e.decision) + "：文件名关键词 "@ + kw,
            ]
        },
    }
}

/// The events that yield proposals, in order.
pub open spec fn proposing(events: Seq<UserDecisionEvent>) -> Seq<UserDecisionEvent>
    decreases events.len(),
{
    if events.len() == 0 {
        Seq::empty()
    } else if proposes(events.last()) {
        proposing(events.drop_last()).push(events.last())
    } else {
        proposing(events.drop_last())
    }
}


/// Where the first `c` is, read off the characters before it.
pub proof fn lemma_first_index(s: Seq<char>, c: char, k: int)
    requires
        0 <= k <= s.len(),
        forall|j: int| 0 <= j < k ==> s[j] != c,
    ensures
        k < s.len() && s[k] == c ==> first_index_of(s, c) == k,
        k == s.len() ==> first_index_of(s, c) == -1,
    decreases k,
{
    if k > 0 {
        lemma_first_index(s.drop_first(), c, k - 1);
    }
}

/// The index of the first `c` in `s`, if any.
pub fn first_index_of_char(s: &Vec<char>, c: char) -> (r: Option<usize>)
    ensures
        match r {
            Some(k) => first_index_of(s@, c) == k && k < s@.len(),
            None => first_index_of(s@, c) == -1,
        },
{
    let mut k: usize = 0;
    while k < s.len()
        invariant
            k <= s@.len(),
            forall|j: int| 0 <= j < k ==> s@[j] != c,
        decreases s.len() - k,
    {
        if s[k] == c {
            proof {
                lemma_first_index(s@, c, k as int);
            }
            return Some(k);
        }
        k = k + 1;
    }
    proof {
        lemma_first_index(s@, c, k as int);
    }
    None
}

/// The normalized form of an optional extension.
pub fn normalized_extension_of(value: &Option<String>) -> (r: Option<String>)
    ensures
        opt_view(r) == normalized_extension(opt_view(*value)),
{
    match value {
        Some(v) => {
            let t = crate::text::trim_chars(&crate::text::chars_of(v.as_str()));
            let stripped = crate::text::string_of(&crate::text::strip_leading_chars(&t, '.'));
            let n = crate::text::to_lowercase(stripped.as_str());
            if n.as_str().unicode_len() > 0 {
                Some(n)
            } else {
                None
            }
        },
        None => None,
    }
}

/// The type part of a MIME type with its slash.
pub fn mime_prefix_of(value: &str) -> (r: Option<String>)
    ensures
        opt_view(r) == mime_prefix(value@),
{
    let v = crate::text::chars_of(value);
    match first_index_of_char(&v, '/') {
        Some(k) => {
            if k == 0 {
                None
            } else {
                let mut p = crate::text::sub_chars(&v, 0, k);
                p.push('/');
                Some(crate::text::string_of(&p))
            }
        },
        None => None,
    }
}

/// The folder hint learned from where the user put a file.
pub fn destination_hint_of(e: &UserDecisionEvent) -> (r: Option<String>)
    ensures
        opt_view(r) == destination_hint(*e),
{
    match &e.final_destination {
        Some(d) => {
            let dc = crate::text::chars_of(d.as_str());
            match crate::path::file_name_of(&dc) {
                Some(final_name) => {
                    if crate::text::text_is(&final_name, e.file_name.as_str()) {
                        let cs = crate::path::components_of(&dc);
                        assert(cs.deep_view().last() == final_name@);
                        if cs.len() >= 2 {
                            let last = &cs[cs.len() - 2];
                            proof {
                                let pc = cs.deep_view().drop_last();
                                assert(pc.last() == last@);
                            }
                            let is_root = last.len() == 1 && last[0] == '/';
                            let is_cur = last.len() == 1 && last[0] == '.';
                            let is_parent = last.len() == 2 && last[0] == '.' && last[1] == '.';
                            proof {
                                if last@.len() == 1 {
                                    if last@[0] == '/' {
                                        assert(last@ =~= seq!['/']);
                                    }
                                    if last@[0] == '.' {
                                        assert(last@ =~= seq!['.']);
                                    }
                                }
                                if last@.len() == 2 && last@[0] == '.' && last@[1] == '.' {
                                    assert(last@ =~= seq!['.', '.']);
                                }
                            }
                            if is_root || is_cur || is_parent {
                                None
                            } else {
                                Some(crate::text::string_of(last))
                            }
                        } else {
                            None
                        }
                    } else {
                        Some(crate::text::string_of(&final_name))
                    }
                },
                None => None,
            }
        },
        None => None,
    }
}

/// One step of reading parts at non-alphanumeric characters.
proof fn lemma_long_part_step(s: Seq<char>, i: int, cur: Seq<char>)
    requires
        0 <= i < s.len(),
    ensures
        first_long_part(s.subrange(i, s.len() as int), cur) == if !crate::text::unicode_alphanumeric(s[i]) {
            if cur.len() >= 2 {
                Some(cur)
            } else {
                first_long_part(s.subrange(i + 1, s.len() as int), Seq::empty())
            }
        } else {
            first_long_part(s.subrange(i + 1, s.len() as int), cur.push(s[i]))
        },
{
    assert(s.subrange(i, s.len() as int).drop_first() =~= s.subrange(i + 1, s.len() as int));
}

/// The first alphanumeric run of at least two characters.
fn first_long_part_of(s: &Vec<char>) -> (r: Option<Vec<char>>)
    ensures
        match r {
            Some(p) => first_long_part(s@, Seq::empty()) == Some(p@),
            None => first_long_part(s@, Seq::empty()) is None,
        },
{
    let mut cur: Vec<char> = Vec::new();
    let mut i: usize = 0;
    assert(s@.subrange(0, s@.len() as int) =~= s@);
    while i < s.len()
        invariant
            i <= s@.len(),
            first_long_part(s@, Seq::empty()) == first_long_part(s@.subrange(i as int, s@.len() as int), cur@),
        decreases s.len() - i,
    {
        proof {
            lemma_long_part_step(s@, i as int, cur@);
        }
        if !crate::text::is_alphanumeric(s[i]) {
            if cur.len() >= 2 {
                return Some(cur);
            }
            cur = Vec::new();
        } else {
            cur.push(s[i]);
        }
        i = i + 1;
    }
    assert(s@.subrange(i as int, s@.len() as int) =~= Seq::<char>::empty());
    if cur.len() >= 2 {
        Some(cur)
    } else {
        None
    }
}

/// The keyword of a file name.
pub fn file_name_keyword_of(name: &str) -> (r: Option<String>)
    ensures
        opt_view(r) == file_name_keyword(name@),
{
    let n = crate::text::chars_of(name);
    let stem = match first_index_of_char(&n, '.') {
        Some(k) => crate::text::sub_chars(&n, 0, k),
        None => n,
    };
    let t = crate::text::trim_chars(&stem);
    match first_long_part_of(&t) {
        Some(p) => Some(crate::text::to_lowercase(crate::text::string_of(&p).as_str())),
        None => None,
    }
}

/// The name of the `Debug` form of a decision.
pub fn decision_name_of(d: UserDecision) -> (r: &'static str)
    ensures
        r@ == decision_name(d),
{
    match d {
        UserDecision::Accepted => "Accepted",
        UserDecision::Rejected => "Rejected",
        UserDecision::EditedDestination => "EditedDestination",
        UserDecision::RenamedFolder => "RenamedFolder",
        UserDecision::RenamedCategory => "RenamedCategory",
    }
}

/// The MIME prefix a proposal records.
fn proposal_mime_prefix_of(e: &UserDecisionEvent) -> (r: Option<String>)
    ensures
        opt_view(r) == proposal_mime_prefix(*e),
{
    match &e.mime_type {
        Some(m) => mime_prefix_of(m.as_str()),
        None => None,
    }
}

/// The proposal learned from one decision, if any. Rejections teach nothing.
pub fn proposal_from_event(e: &UserDecisionEvent) -> (r: Option<SkillUpdateProposal>)
    ensures
        r is Some <==> proposes(*e),
        r matches Some(p) ==> is_proposal_for(p, *e),
{
    if e.decision == UserDecision::Rejected {
        return None;
    }
    let category = match e.final_category {
        Some(c) => c,
        None => {
            return None;
        },
    };
    let hint = destination_hint_of(e);
    let mut ids: Vec<u128> = Vec::new();
    ids.push(e.event_id);
    assert(ids@ =~= seq![e.event_id]);
    match normalized_extension_of(&e.extension) {
        Some(ext) => {
            let name = String::from_str(".").concat(ext.as_str()).concat(" 文件进入 ").concat(
                category.folder_name(),
            );
            let text = String::from_str("用户决策 ").concat(decision_name_of(e.decision)).concat(
                "：同扩展名 .",
            ).concat(ext.as_str());
            let mut evidence: Vec<String> = Vec::new();
            evidence.push(text);
            proof {
                assert(evidence.deep_view() =~= seq![evidence@[0]@]);
            }
            Some(SkillUpdateProposal {
                name,
                rule: SkillRule {
                    extension: Some(ext),
                    file_name_contains: None,
                    mime_prefix: proposal_mime_prefix_of(e),
                    category,
                    destination_hint: hint,
                },
                enabled: true,
                evidence,
                source_event_ids: ids,
            })
        },
        None => {
            let kw = match file_name_keyword_of(e.file_name.as_str()) {
                Some(k) => k,
                None => {
                    return None;
                },
            };
            let name = String::from_str("文件名包含 ").concat(kw.as_str()).concat(" 进入 ").concat(
                category.folder_name(),
            );
            let text = String::from_str("用户决策 ").concat(decision_name_of(e.decision)).concat(
                "：文件名关键词 ",
            ).concat(kw.as_str());
            let mut evidence: Vec<String> = Vec::new();
            evidence.push(text);
            proof {
                assert(evidence.deep_view() =~= seq![evidence@[0]@]);
            }
            Some(SkillUpdateProposal {
                name,
                rule: SkillRule {
                    extension: None,
                    file_name_contains: Some(kw),
                    mime_prefix: proposal_mime_prefix_of(e),
                    category,
                    destination_hint: hint,
                },
                enabled: true,
                evidence,
                source_event_ids: ids,
            })
        },
    }
}

/// Proposals learned from decisions, one per event that teaches something,
/// in the order of the events.
pub fn propose_skill_updates(events: &Vec<UserDecisionEvent>) -> (r: Vec<SkillUpdateProposal>)
    ensures
        r@.len() == proposing(events@).len(),
        forall|i: int| 0 <= i < r@.len() ==> is_proposal_for(#[trigger] r@[i], proposing(events@)[i]),
{
    let mut out: Vec<SkillUpdateProposal> = Vec::new();
    let mut i: usize = 0;
    while i < events.len()
        invariant
            i <= events@.len(),
            out@.len() == proposing(events@.subrange(0, i as int)).len(),
            forall|k: int| 0 <= k < out@.len() ==> is_proposal_for(#[trigger] out@[k], proposing(events@.subrange(0, i as int))[k]),
        decreases events.len() - i,
    {
        proof {
            assert(events@.subrange(0, i + 1).drop_last() =~= events@.subrange(0, i as int));
            assert(events@.subrange(0, i + 1).last() == events@[i as int]);
        }
        match proposal_from_event(&events[i]) {
            Some(p) => {
                out.push(p);
            },
            None => {},
        }
        i = i + 1;
    }
    assert(events@.subrange(0, events@.len() as int) =~= events@);
    out
}


/// What the skill engine knows of a file.
#[derive(Debug, Clone, PartialEq, Eq)]
pub struct FileFacts {
    pub file_name: String,
    pub extension: Option<String>,
    pub mime: Option<String>,
    pub size_bytes: u64,
}

/// A suggestion of one skill for one file.
#[derive(Debug, Clone, PartialEq, Eq)]
pub struct SkillSuggestion {
    pub skill_id: String,
    pub skill_name: String,
    pub category: FileCategory,
    pub destination_hint: Option<String>,
    pub evidence: Vec<String>,
}

/// A skill matcher accepts a file: it has at least one non-empty condition
/// and every one it has holds.
pub open spec fn rule_accepts(rule: SkillRule, file: FileFacts) -> bool {
    let ext = normalized_extension(opt_view(rule.extension));
    let needle = match rule.file_name_contains {
        Some(n) => if n@.len() > 0 { Some(n@) } else { None },
        None => None,
    };
    let prefix = match rule.mime_prefix {
        Some(p) => if p@.len() > 0 { Some(p@) } else { None },
        None => None,
    };
    &&& (ext is Some || needle is Some || prefix is Some)
    &&& (ext matches Some(x) ==> (normalized_extension(opt_view(file.extension)) matches Some(a)
        && eq_ignore_ascii_case(a, x)))
    &&& (needle matches Some(n) ==> contains_seq(
        unicode_lowercase(file.file_name@),
        unicode_lowercase(n),
    ))
    &&& (prefix matches Some(p) ==> (file.mime matches Some(m) && starts_with(m@, p)))
}

/// The evidence a skill gives for its suggestion.
pub open spec fn suggestion_evidence(skill: Skill) -> Seq<Seq<char>> {
    let first = seq!["命中已启用 Skill："@ + skill.name@];
    let with_ext = match normalized_extension(opt_view(skill.rule.extension)) {
        Some(e) => first.push("Skill 条件：扩展名 ."@ + e),
        None => first,
    };
    let with_name = match skill.rule.file_name_contains {
        Some(n) => with_ext.push("Skill 条件：文件名包含 "@ + n@),
        None => with_ext,
    };
    let with_mime = match skill.rule.mime_prefix {
        Some(p) => with_name.push("Skill 条件：MIME 前缀 "@ + p@),
        None => with_name,
    };
    match skill.rule.destination_hint {
        Some(h) => with_mime.push("Skill 目标文件夹提示："@ + h@),
        None => with_mime,
    }
}

/// A skill applies to a file.
pub open spec fn suggests(skill: Skill, file: FileFacts) -> bool {
    skill.enabled && rule_accepts(skill.rule, file)
}

/// The skills that apply to a file, in order.
pub open spec fn suggesting(skills: Seq<Skill>, file: FileFacts) -> Seq<Skill>
    decreases skills.len(),
{
    if skills.len() == 0 {
        Seq::empty()
    } else if suggests(skills.last(), file) {
        suggesting(skills.drop_last(), file).push(skills.last())
    } else {
        suggesting(skills.drop_last(), file)
    }
}

/// `s` is the suggestion of `skill`.
pub open spec fn is_suggestion_of(s: SkillSuggestion, skill: Skill) -> bool {
    &&& s.skill_id@ == crate::ids::uuid_text(skill.id)
    &&& s.skill_name@ == skill.name@
    &&& s.category == skill.rule.category
    &&& opt_view(s.destination_hint) == opt_view(skill.rule.destination_hint)
    &&& s.evidence.deep_view() == suggestion_evidence(skill)
}

/// Whether a skill matcher accepts a file.
pub fn rule_matches(rule: &SkillRule, file: &FileFacts) -> (r: bool)
    ensures
        r == rule_accepts(*rule, *file),
{
    let mut has_condition = false;
    match normalized_extension_of(&rule.extension) {
        Some(expected) => {
            has_condition = true;
            let ok = match normalized_extension_of(&file.extension) {
                Some(actual) => crate::text::eq_ignore_ascii_case_chars(
                    &crate::text::chars_of(actual.as_str()),
                    &crate::text::chars_of(expected.as_str()),
                ),
                None => false,
            };
            if !ok {
                return false;
            }
        },
        None => {},
    }
    match &rule.file_name_contains {
        Some(n) => {
            if n.as_str().unicode_len() > 0 {
                has_condition = true;
                if !crate::text::contains_case_insensitive(file.file_name.as_str(), n.as_str()) {
                    return false;
                }
            }
        },
        None => {},
    }
    match &rule.mime_prefix {
        Some(p) => {
            if p.as_str().unicode_len() > 0 {
                has_condition = true;
                let ok = match &file.mime {
                    Some(m) => crate::text::starts_with_chars(
                        &crate::text::chars_of(m.as_str()),
                        &crate::text::chars_of(p.as_str()),
                    ),
                    None => false,
                };
                if !ok {
                    return false;
                }
            }
        },
        None => {},
    }
    has_condition
}

/// The evidence a skill gives for its suggestion.
fn suggestion_evidence_of(skill: &Skill) -> (r: Vec<String>)
    ensures
        r.deep_view() == suggestion_evidence(*skill),
{
    let mut evidence: Vec<String> = Vec::new();
    evidence.push(String::from_str("命中已启用 Skill：").concat(skill.name.as_str()));
    let ghost e0 = evidence.deep_view();
    assert(e0 =~= seq!["命中已启用 Skill："@ + skill.name@]);
    match normalized_extension_of(&skill.rule.extension) {
        Some(e) => {
            evidence.push(String::from_str("Skill 条件：扩展名 .").concat(e.as_str()));
            assert(evidence.deep_view() =~= e0.push("Skill 条件：扩展名 ."@ + e@));
        },
        None => {},
    }
    let ghost e1 = evidence.deep_view();
    match &skill.rule.file_name_contains {
        Some(n) => {
            evidence.push(String::from_str("Skill 条件：文件名包含 ").concat(n.as_str()));
            assert(evidence.deep_view() =~= e1.push("Skill 条件：文件名包含 "@ + n@));
        },
        None => {},
    }
    let ghost e2 = evidence.deep_view();
    match &skill.rule.mime_prefix {
        Some(p) => {
            evidence.push(String::from_str("Skill 条件：MIME 前缀 ").concat(p.as_str()));
            assert(evidence.deep_view() =~= e2.push("Skill 条件：MIME 前缀 "@ + p@));
        },
        None => {},
    }
    let ghost e3 = evidence.deep_view();
    match &skill.rule.destination_hint {
        Some(h) => {
            evidence.push(String::from_str("Skill 目标文件夹提示：").concat(h.as_str()));
            assert(evidence.deep_view() =~= e3.push("Skill 目标文件夹提示："@ + h@));
        },
        None => {},
    }
    evidence
}

/// Suggests categories from the user's skills.
#[derive(Debug, Clone, Default)]
pub struct SkillEngine {
    skills: Vec<Skill>,
}

impl SkillEngine {
    /// The skills the engine consults.
    pub closed spec fn skills_view(&self) -> Seq<Skill> {
        self.skills@
    }

    /// An engine over these skills.
    pub fn new(skills: Vec<Skill>) -> (r: Self)
        ensures
            r.skills_view() == skills@,
    {
        SkillEngine { skills }
    }

    /// One suggestion per enabled skill that accepts the file, in the order
    /// of the skills.
    pub fn suggest(&self, file: &FileFacts) -> (r: Vec<SkillSuggestion>)
        ensures
            r@.len() == suggesting(self.skills_view(), *file).len(),
            forall|i: int|
                0 <= i < r@.len() ==> is_suggestion_of(
                    #[trigger] r@[i],
                    suggesting(self.skills_view(), *file)[i],
                ),
    {
        let mut out: Vec<SkillSuggestion> = Vec::new();
        let mut i: usize = 0;
        while i < self.skills.len()
            invariant
                i <= self.skills@.len(),
                out@.len() == suggesting(self.skills@.subrange(0, i as int), *file).len(),
                forall|k: int|
                    0 <= k < out@.len() ==> is_suggestion_of(
                        #[trigger] out@[k],
                        suggesting(self.skills@.subrange(0, i as int), *file)[k],
                    ),
            decreases self.skills.len() - i,
        {
            proof {
                assert(self.skills@.subrange(0, i + 1).drop_last() =~= self.skills@.subrange(0, i as int));
                assert(self.skills@.subrange(0, i + 1).last() == self.skills@[i as int]);
            }
            let skill = &self.skills[i];
            if skill.enabled && rule_matches(&skill.rule, file) {
                out.push(SkillSuggestion {
                    skill_id: crate::ids::id_text(skill.id),
                    skill_name: skill.name.clone(),
                    category: skill.rule.category,
                    destination_hint: crate::model::copy_opt_text(&skill.rule.destination_hint),
                    evidence: suggestion_evidence_of(skill),
                });
            }
            i = i + 1;
        }
        assert(self.skills@.subrange(0, self.skills@.len() as int) =~= self.skills@);
        out
    }
}


/// A matcher accepts a file only if each condition it names holds: a
/// non-empty file-name text must occur in the lower-cased file name
/// (lower-cased itself), a non-empty MIME prefix must begin the file's MIME
/// type, and the extension must be the file's, up to ASCII case and leading
/// dots.
pub proof fn law_matcher_conditions_hold(rule: SkillRule, file: FileFacts)
    requires
        rule_accepts(rule, file),
    ensures
        (rule.file_name_contains matches Some(n) && n@.len() > 0) ==> contains_seq(
            unicode_lowercase(file.file_name@),
            unicode_lowercase(rule.file_name_contains.unwrap()@),
        ),
        (rule.mime_prefix matches Some(p) && p@.len() > 0) ==> (file.mime matches Some(m) && starts_with(
            m@,
            rule.mime_prefix.unwrap()@,
        )),
        normalized_extension(opt_view(rule.extension)) is Some ==> (normalized_extension(
            opt_view(file.extension),
        ) matches Some(a) && eq_ignore_ascii_case(a, normalized_extension(opt_view(rule.extension)).unwrap())),
{
}

/// Every skill the engine suggests for a file is an enabled skill of the
/// engine whose matcher accepts the file.
pub proof fn law_suggested_skills_accept(skills: Seq<Skill>, file: FileFacts, k: int)
    requires
        0 <= k < suggesting(skills, file).len(),
    ensures
        skills.contains(suggesting(skills, file)[k]),
        suggesting(skills, file)[k].enabled,
        rule_accepts(suggesting(skills, file)[k].rule, file),
    decreases skills.len(),
{
    let rest = skills.drop_last();
    if suggests(skills.last(), file) && k == suggesting(rest, file).len() {
        assert(skills.last() == skills[skills.len() - 1]);
    } else {
        law_suggested_skills_accept(rest, file, k);
        let s = suggesting(rest, file)[k];
        let i = choose|i: int| 0 <= i < rest.len() && rest[i] == s;
        assert(skills[i] == s);
    }
}


/// The MIME prefix a proposal records is the type part up to and with the
/// first slash: for `t/r` with a non-empty `t` free of slashes it is `t/`;
/// a MIME type without a slash, or starting with one, gives none.
pub proof fn law_mime_prefix_is_type_part(t: Seq<char>, r: Seq<char>)
    ensures
        (t.len() > 0 && !t.contains('/')) ==> mime_prefix(t + seq!['/'] + r) == Some(t.push('/')),
        !t.contains('/') ==> mime_prefix(t) is None,
        mime_prefix(seq!['/'] + r) is None,
{
    let m = t + seq!['/'] + r;
    if !t.contains('/') {
        assert forall|j: int| 0 <= j < t.len() implies m[j] != '/' by {
            assert(m[j] == t[j]);
        }
        lemma_first_index(m, '/', t.len() as int);
        assert(m.subrange(0, t.len() as int) =~= t);
        assert forall|j: int| 0 <= j < t.len() implies t[j] != '/' by {
            if t[j] == '/' {
                assert(t.contains('/'));
            }
        }
        lemma_first_index(t, '/', t.len() as int);
    }
    let n = seq!['/'] + r;
    assert(n[0] == '/');
    lemma_first_index(n, '/', 0);
}

} // verus!
