//! The search command: from the repository's answer to the lines that
//! describe each mod found.

use crate::command::Command;
use crate::json::{
    as_items, json_error, json_items, json_member, json_parsed, member, member_text,
    member_text_of, parse, text_of, text_or_empty, JsonError,
};
use crate::text::{center, centered, join, joined, views, SEPARATOR};
use serde_json::Value;
use vstd::prelude::*;
use vstd::string::*;

verus! {

/// One mod that a search found.
pub struct ModHit {
    pub slug: String,
    pub title: String,
    pub description: String,
    pub project_type: String,
    pub client_side: String,
    pub server_side: String,
    pub versions: Vec<String>,
}

/// A mod that a search found, with texts as sequences of characters.
pub struct ModHitView {
    pub slug: Seq<char>,
    pub title: Seq<char>,
    pub description: Seq<char>,
    pub project_type: Seq<char>,
    pub client_side: Seq<char>,
    pub server_side: Seq<char>,
    pub versions: Seq<Seq<char>>,
}

impl View for ModHit {
    type V = ModHitView;

    open spec fn view(&self) -> ModHitView {
        ModHitView {
            slug: self.slug@,
            title: self.title@,
            description: self.description@,
            project_type: self.project_type@,
            client_side: self.client_side@,
            server_side: self.server_side@,
            versions: views(self.versions@),
        }
    }
}

/// The views of `hits`, in order.
pub open spec fn hit_views(hits: Seq<ModHit>) -> Seq<ModHitView> {
    hits.map_values(|h: ModHit| h@)
}

/// The texts of the elements of `value` if it is an array, each element
/// that is no string counting as the empty text; nothing if it is no array.
pub open spec fn texts_of(value: Value) -> Seq<Seq<char>> {
    match json_items(value) {
        Some(items) => items.map_values(|v: Value| text_or_empty(v)),
        None => Seq::empty(),
    }
}

/// The mod that the object `value` describes. A member that is missing or
/// is no string counts as the empty text.
pub open spec fn hit_of(value: Value) -> ModHitView {
    ModHitView {
        slug: member_text(value, "slug"@),
        title: member_text(value, "title"@),
        description: member_text(value, "description"@),
        project_type: member_text(value, "project_type"@),
        client_side: member_text(value, "client_side"@),
        server_side: member_text(value, "server_side"@),
        versions: texts_of(json_member(value, "versions"@)),
    }
}

/// The mods that the answer `doc` lists under `hits`, in order; none if it
/// has no such list.
pub open spec fn hits_of(doc: Value) -> Seq<ModHitView> {
    match json_items(json_member(doc, "hits"@)) {
        Some(items) => items.map_values(|v: Value| hit_of(v)),
        None => Seq::empty(),
    }
}

/// The lines that describe one mod: its title centred in the rule, then
/// its description, slug, type, sides and versions, one bullet each.
pub open spec fn mod_info(hit: ModHitView) -> Seq<Seq<char>> {
    seq![
        centered(SEPARATOR@, hit.title),
        "\u{2022} "@ + hit.description,
        "\u{2022} Slug: "@ + hit.slug,
        "\u{2022} Type: "@ + hit.project_type,
        "\u{2022} Client side: "@ + hit.client_side,
        "\u{2022} Server side: "@ + hit.server_side,
        "\u{2022} Versions: "@ + joined(hit.versions, ", "@),
    ]
}

/// The lines that describe `hits`, mod after mod.
pub open spec fn mod_info_all(hits: Seq<ModHitView>) -> Seq<Seq<char>>
    decreases hits.len(),
{
    if hits.len() == 0 {
        Seq::empty()
    } else {
        mod_info_all(hits.drop_last()) + mod_info(hits.last())
    }
}

/// What the search command shows for one answer.
pub enum SearchOutput {
    /// Lines for the standard output.
    Lines(Vec<String>),
    /// One line for the error output.
    Complaint(String),
}

/// `label` followed by `text`.
fn labelled(label: &str, text: &str) -> (r: String)
    ensures
        r@ == label@ + text@,
{
    let mut line = String::from_str(label);
    line.append(text);
    line
}

/// The texts of the elements of `value`, as `texts_of` gives them.
pub(crate) fn texts_from(value: &Value) -> (r: Vec<String>)
    ensures
        views(r@) == texts_of(*value),
{
    let mut texts: Vec<String> = Vec::new();
    match as_items(value) {
        Some(items) => {
            let mut i: usize = 0;
            while i < items.len()
                invariant
                    0 <= i <= items.len(),
                    views(texts@) == items@.take(i as int).map_values(|v: Value| text_or_empty(v)),
                decreases items.len() - i,
            {
                let ghost before = views(texts@);
                texts.push(text_of(&items[i]));
                assert(views(texts@) =~= before.push(text_or_empty(items@[i as int])));
                assert(items@.take(i as int + 1).map_values(|v: Value| text_or_empty(v))
                    =~= before.push(text_or_empty(items@[i as int])));
                i += 1;
            }
            assert(items@.take(items.len() as int) =~= items@);
        },
        None => {
            assert(views(texts@) =~= Seq::<Seq<char>>::empty());
        },
    }
    texts
}

/// The mod that the object `value` describes.
pub(crate) fn hit_from(value: &Value) -> (r: ModHit)
    ensures
        r@ == hit_of(*value),
{
    ModHit {
        slug: member_text_of(value, "slug"),
        title: member_text_of(value, "title"),
        description: member_text_of(value, "description"),
        project_type: member_text_of(value, "project_type"),
        client_side: member_text_of(value, "client_side"),
        server_side: member_text_of(value, "server_side"),
        versions: texts_from(member(value, "versions")),
    }
}

/// The mods that the answer `doc` lists.
pub(crate) fn hits_from(doc: &Value) -> (r: Vec<ModHit>)
    ensures
        hit_views(r@) == hits_of(*doc),
{
    let mut hits: Vec<ModHit> = Vec::new();
    match as_items(member(doc, "hits")) {
        Some(items) => {
            let mut i: usize = 0;
            while i < items.len()
                invariant
                    0 <= i <= items.len(),
                    hit_views(hits@) == items@.take(i as int).map_values(|v: Value| hit_of(v)),
                decreases items.len() - i,
            {
                let ghost before = hit_views(hits@);
                hits.push(hit_from(&items[i]));
                assert(hit_views(hits@) =~= before.push(hit_of(items@[i as int])));
                assert(items@.take(i as int + 1).map_values(|v: Value| hit_of(v)) =~= before.push(
                    hit_of(items@[i as int]),
                ));
                i += 1;
            }
            assert(items@.take(items.len() as int) =~= items@);
        },
        None => {
            assert(hit_views(hits@) =~= Seq::<ModHitView>::empty());
        },
    }
    hits
}

/// The lines that describe one mod.
pub fn mod_info_lines(hit: &ModHit) -> (r: Vec<String>)
    ensures
        views(r@) == mod_info(hit@),
{
    let mut lines: Vec<String> = Vec::new();
    lines.push(center(SEPARATOR, hit.title.as_str()));
    lines.push(labelled("\u{2022} ", hit.description.as_str()));
    lines.push(labelled("\u{2022} Slug: ", hit.slug.as_str()));
    lines.push(labelled("\u{2022} Type: ", hit.project_type.as_str()));
    lines.push(labelled("\u{2022} Client side: ", hit.client_side.as_str()));
    lines.push(labelled("\u{2022} Server side: ", hit.server_side.as_str()));
    lines.push(labelled("\u{2022} Versions: ", join(&hit.versions, ", ").as_str()));
    assert(views(lines@) =~= mod_info(hit@));
    lines
}

/// The lines that describe `hits`, mod after mod.
pub fn mod_info_all_lines(hits: &Vec<ModHit>) -> (r: Vec<String>)
    ensures
        views(r@) == mod_info_all(hit_views(hits@)),
{
    let mut lines: Vec<String> = Vec::new();
    let mut i: usize = 0;
    assert(views(lines@) =~= mod_info_all(hit_views(hits@).take(0)));
    while i < hits.len()
        invariant
            0 <= i <= hits.len(),
            views(lines@) == mod_info_all(hit_views(hits@).take(i as int)),
        decreases hits.len() - i,
    {
        let ghost before = views(lines@);
        let mut more = mod_info_lines(&hits[i]);
        let ghost added = views(more@);
        lines.append(&mut more);
        proof {
            assert(views(lines@) =~= before + added);
            assert(hit_views(hits@).take(i as int + 1).drop_last() =~= hit_views(hits@).take(
                i as int,
            ));
            assert(hit_views(hits@).take(i as int + 1).last() == hits@[i as int]@);
        }
        i += 1;
    }
    assert(hit_views(hits@).take(hits.len() as int) =~= hit_views(hits@));
    lines
}

/// Reads the repository's answer `json_str` and gives the lines that
/// describe the mods it lists. A text that is no JSON document is an error.
pub fn print_mod_info(json_str: &str) -> (r: Result<Vec<String>, JsonError>)
    ensures
        match json_parsed(json_str@) {
            Some(doc) => r is Ok && views(r->Ok_0@) == mod_info_all(hits_of(doc)),
            None => r is Err,
        },
{
    match parse(json_str) {
        Ok(doc) => {
            let hits = hits_from(&doc);
            Ok(mod_info_all_lines(&hits))
        },
        Err(e) => Err(json_error(e)),
    }
}

/// The command that searches the repository for mods.
pub struct SearchCommand;

impl SearchCommand {
    /// The line that the menu shows for this command.
    pub fn description(&self) -> (r: &'static str)
        ensures
            r@ == Command::Search.description_text(),
    {
        Command::Search.description()
    }

    /// What the command asks the user.
    pub fn prompt(&self) -> (r: &'static str)
        ensures
            r@ == "Enter mod to search for: "@,
    {
        "Enter mod to search for: "
    }

    /// What the command shows once the repository has answered: the lines
    /// of the mods found, or one line of complaint if the request failed
    /// with `Err(detail)` or the answer is no JSON document.
    pub fn report(&self, answer: Result<String, String>) -> (r: SearchOutput)
        ensures
            match answer {
                Ok(json) => match json_parsed(json@) {
                    Some(doc) => r matches SearchOutput::Lines(lines) && views(lines@)
                        == mod_info_all(hits_of(doc)),
                    None => r matches SearchOutput::Complaint(line) && "Error: "@.is_prefix_of(
                        line@,
                    ),
                },
                Err(detail) => r matches SearchOutput::Complaint(line) && line@ == "Error: "@
                    + detail@,
            },
    {
        match answer {
            Ok(json) => match print_mod_info(json.as_str()) {
                Ok(lines) => SearchOutput::Lines(lines),
                Err(e) => SearchOutput::Complaint(labelled("Error: ", e.message.as_str())),
            },
            Err(detail) => SearchOutput::Complaint(labelled("Error: ", detail.as_str())),
        }
    }
}

} // verus!
