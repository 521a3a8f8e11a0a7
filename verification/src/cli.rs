//! The command line: global options, subcommands, and the decisions the
//! program takes on them (which columns, which URL, whether a token is owed).

use vstd::prelude::*;
use vstd::string::*;
use crate::error::TdoError;
use crate::output::{Header, TsvConfig};
use crate::text::{stop_index, str_views, trim, trim_str, views};
use crate::write::{
    add_project_url_of, add_url_of, build_add_project_url, build_add_url, build_cancel_url,
    build_complete_url, build_move_url, build_update_url, cancel_url, complete_url, move_url,
    str_opt, string_opt, update_url_of, AddParams, AddProjectParams, UpdateParams,
};

verus! {

/// How many completed items the logbook lists unless `--limit` says otherwise.
pub const DEFAULT_LOGBOOK_LIMIT: u32 = 50;

/// The parsed command line.
pub struct Cli {
    pub db_path: Option<String>,
    pub json: bool,
    pub fields: Option<String>,
    pub no_header: bool,
    pub auth_token: Option<String>,
    pub command: Command,
}

#[allow(inconsistent_fields)]
pub enum Command {
    Inbox,
    Today,
    Upcoming,
    Anytime,
    Someday,
    Logbook { limit: u32 },
    Projects,
    Areas,
    Tags,
    Show { id: String },
    Search { query: String },
    Stats,
    Skill { codex: bool, show: bool },
    Add {
        title: String,
        notes: Option<String>,
        when: Option<String>,
        deadline: Option<String>,
        tags: Option<String>,
        list: Option<String>,
        heading: Option<String>,
        checklist_items: Vec<String>,
    },
    Complete { id: String },
    Cancel { id: String },
    Update {
        id: String,
        title: Option<String>,
        notes: Option<String>,
        append_notes: Option<String>,
        prepend_notes: Option<String>,
        when: Option<String>,
        deadline: Option<String>,
        add_tags: Option<String>,
        list: Option<String>,
        heading: Option<String>,
    },
    Move { id: String, to: String },
    Project { command: ProjectCommand },
}

pub enum ProjectCommand {
    Add {
        title: String,
        notes: Option<String>,
        when: Option<String>,
        deadline: Option<String>,
        tags: Option<String>,
        area: Option<String>,
        todos: Vec<String>,
    },
    Tasks { project: String },
}

/// What a command needs: nothing outside, the database, or the URL scheme.
pub enum Route {
    Skill,
    Read,
    Write,
}

pub open spec fn route_of(c: Command) -> Route {
    match c {
        Command::Skill { .. } => Route::Skill,
        Command::Add { .. } | Command::Complete { .. } | Command::Cancel { .. }
        | Command::Update { .. } | Command::Move { .. } => Route::Write,
        Command::Project { command } => match command {
            ProjectCommand::Add { .. } => Route::Write,
            ProjectCommand::Tasks { .. } => Route::Read,
        },
        _ => Route::Read,
    }
}

/// Whether a command changes an existing item, and so needs an auth token.
pub open spec fn needs_auth(c: Command) -> bool {
    match c {
        Command::Complete { .. } | Command::Cancel { .. } | Command::Update { .. }
        | Command::Move { .. } => true,
        _ => false,
    }
}

impl Command {
    /// Which part of the program runs the command.
    pub fn route(&self) -> (r: Route)
        ensures
            r == route_of(*self),
    {
        match self {
            Command::Skill { .. } => Route::Skill,
            Command::Add { .. } | Command::Complete { .. } | Command::Cancel { .. }
            | Command::Update { .. } | Command::Move { .. } => Route::Write,
            Command::Project { command } => match command {
                ProjectCommand::Add { .. } => Route::Write,
                ProjectCommand::Tasks { .. } => Route::Read,
            },
            _ => Route::Read,
        }
    }
}

/// The columns a read command prints unless `--fields` says otherwise.
pub open spec fn default_columns(c: Command) -> Seq<Seq<char>> {
    match c {
        Command::Inbox => seq!["id"@, "title"@, "tags"@, "deadline"@],
        Command::Today => seq!["id"@, "title"@, "project"@, "tags"@, "deadline"@],
        Command::Upcoming => seq!["id"@, "title"@, "project"@, "tags"@, "startDate"@, "deadline"@],
        Command::Anytime => seq!["id"@, "title"@, "project"@, "area"@, "tags"@, "deadline"@],
        Command::Someday => seq!["id"@, "title"@, "project"@, "tags"@],
        Command::Logbook { .. } => seq!["id"@, "title"@, "project"@, "completedDate"@],
        Command::Projects => seq!["id"@, "title"@, "area"@, "tags"@, "deadline"@, "openTasks"@],
        Command::Areas => seq!["id"@, "title"@],
        Command::Tags => seq!["id"@, "title"@, "shortcut"@, "parent"@],
        Command::Search { .. } => seq!["id"@, "title"@, "project"@, "status"@, "tags"@],
        Command::Project { command: ProjectCommand::Tasks { .. } } => seq![
            "id"@,
            "title"@,
            "tags"@,
            "startDate"@,
            "deadline"@,
        ],
        _ => Seq::<Seq<char>>::empty(),
    }
}

/// The default columns of a read command.
pub fn default_fields(command: &Command) -> (r: Vec<&'static str>)
    ensures
        str_views(r@) == default_columns(*command),
{
    let r: Vec<&'static str> = match command {
        Command::Inbox => vec!["id", "title", "tags", "deadline"],
        Command::Today => vec!["id", "title", "project", "tags", "deadline"],
        Command::Upcoming => vec!["id", "title", "project", "tags", "startDate", "deadline"],
        Command::Anytime => vec!["id", "title", "project", "area", "tags", "deadline"],
        Command::Someday => vec!["id", "title", "project", "tags"],
        Command::Logbook { .. } => vec!["id", "title", "project", "completedDate"],
        Command::Projects => vec!["id", "title", "area", "tags", "deadline", "openTasks"],
        Command::Areas => vec!["id", "title"],
        Command::Tags => vec!["id", "title", "shortcut", "parent"],
        Command::Search { .. } => vec!["id", "title", "project", "status", "tags"],
        Command::Project { command: ProjectCommand::Tasks { .. } } => vec![
            "id",
            "title",
            "tags",
            "startDate",
            "deadline",
        ],
        _ => Vec::new(),
    };
    assert(str_views(r@) =~= default_columns(*command));
    r
}

impl Cli {
    /// Whether TSV output starts with a header row.
    pub fn header(&self) -> (r: Header)
        ensures
            r is Hide <==> self.no_header,
    {
        if self.no_header {
            Header::Hide
        } else {
            Header::Show
        }
    }

    /// The TSV settings for a command with the given default columns.
    pub fn tsv_config<'a>(&'a self, default_fields: &'a [&'a str]) -> (r: TsvConfig<'a>)
        ensures
            r.default_fields@ == default_fields@,
            *r.fields == self.fields,
            r.header is Hide <==> self.no_header,
    {
        TsvConfig { default_fields, fields: &self.fields, header: self.header() }
    }
}

/// The auth token that a write command needs, or the error that says how to set one.
pub fn require_auth_token(cli: &Cli) -> (r: Result<String, TdoError>)
    ensures
        match cli.auth_token {
            Some(t) => r matches Ok(s) && s@ == t@,
            None => r matches Err(TdoError::AuthMissing),
        },
{
    match &cli.auth_token {
        Some(t) => Ok(t.clone()),
        None => Err(TdoError::AuthMissing),
    }
}

fn as_str_opt(o: &Option<String>) -> (r: Option<&str>)
    ensures
        str_opt(r) == string_opt(*o),
{
    match o {
        Some(s) => Some(s.as_str()),
        None => None,
    }
}

/// What a write command does: the Things URL to open, then the line to print.
pub struct WritePlan {
    pub url: String,
    pub message: String,
}

/// The URL and confirmation message of a write command, given the token
/// (`None` when no token was given). For `add` the message is the line
/// printed when Things' reply names no item (see `add_output`).
pub open spec fn write_plan(c: Command, token: Option<Seq<char>>) -> Option<(Seq<char>, Seq<char>)> {
    match c {
        Command::Add { title, notes, when, deadline, tags, list, heading, checklist_items } => Some(
            (
                add_url_of(
                    title@,
                    string_opt(notes),
                    string_opt(when),
                    string_opt(deadline),
                    string_opt(tags),
                    string_opt(list),
                    string_opt(heading),
                    views(checklist_items@),
                ),
                "Created todo: "@ + title@,
            ),
        ),
        Command::Complete { id } => match token {
            Some(t) => Some((complete_url(id@, t), "Completed: "@ + id@)),
            None => None,
        },
        Command::Cancel { id } => match token {
            Some(t) => Some((cancel_url(id@, t), "Cancelled: "@ + id@)),
            None => None,
        },
        Command::Update {
            id,
            title,
            notes,
            append_notes,
            prepend_notes,
            when,
            deadline,
            add_tags,
            list,
            heading,
        } => match token {
            Some(t) => Some(
                (
                    update_url_of(
                        id@,
                        t,
                        string_opt(title),
                        string_opt(notes),
                        string_opt(append_notes),
                        string_opt(prepend_notes),
                        string_opt(when),
                        string_opt(deadline),
                        string_opt(add_tags),
                        string_opt(list),
                        string_opt(heading),
                    ),
                    "Updated: "@ + id@,
                ),
            ),
            None => None,
        },
        Command::Move { id, to } => match token {
            Some(t) => Some((move_url(id@, t, to@), "Moved: "@ + id@)),
            None => None,
        },
        Command::Project {
            command: ProjectCommand::Add { title, notes, when, deadline, tags, area, todos },
        } => Some(
            (
                add_project_url_of(
                    title@,
                    string_opt(notes),
                    string_opt(when),
                    string_opt(deadline),
                    string_opt(tags),
                    string_opt(area),
                    views(todos@),
                ),
                "Created project: "@ + title@,
            ),
        ),
        _ => None,
    }
}

/// Plans a write command: the URL to open and the message to print once it
/// opened. Commands that change an existing item fail without a token.
pub fn plan_write(cli: &Cli) -> (r: Result<WritePlan, TdoError>)
    requires
        route_of(cli.command) is Write,
    ensures
        match r {
            Ok(p) => write_plan(cli.command, string_opt(cli.auth_token)) == Some(
                (p.url@, p.message@),
            ),
            Err(e) => e is AuthMissing && needs_auth(cli.command) && cli.auth_token is None,
        },
        r is Err <==> (needs_auth(cli.command) && cli.auth_token is None),
{
    match &cli.command {
        Command::Add { title, notes, when, deadline, tags, list, heading, checklist_items } => {
            let url = build_add_url(
                &AddParams {
                    title: title.as_str(),
                    notes: as_str_opt(notes),
                    when: as_str_opt(when),
                    deadline: as_str_opt(deadline),
                    tags: as_str_opt(tags),
                    list: as_str_opt(list),
                    heading: as_str_opt(heading),
                    checklist_items: checklist_items.as_slice(),
                },
            );
            let mut message = "Created todo: ".to_owned();
            message.append(title.as_str());
            Ok(WritePlan { url, message })
        },
        Command::Complete { id } => {
            let token = require_auth_token(cli)?;
            let url = build_complete_url(id.as_str(), token.as_str());
            let mut message = "Completed: ".to_owned();
            message.append(id.as_str());
            Ok(WritePlan { url, message })
        },
        Command::Cancel { id } => {
            let token = require_auth_token(cli)?;
            let url = build_cancel_url(id.as_str(), token.as_str());
            let mut message = "Cancelled: ".to_owned();
            message.append(id.as_str());
            Ok(WritePlan { url, message })
        },
        Command::Update {
            id,
            title,
            notes,
            append_notes,
            prepend_notes,
            when,
            deadline,
            add_tags,
            list,
            heading,
        } => {
            let token = require_auth_token(cli)?;
            let url = build_update_url(
                &UpdateParams {
                    id: id.as_str(),
                    auth_token: token.as_str(),
                    title: as_str_opt(title),
                    notes: as_str_opt(notes),
                    append_notes: as_str_opt(append_notes),
                    prepend_notes: as_str_opt(prepend_notes),
                    when: as_str_opt(when),
                    deadline: as_str_opt(deadline),
                    add_tags: as_str_opt(add_tags),
                    list: as_str_opt(list),
                    heading: as_str_opt(heading),
                },
            );
            let mut message = "Updated: ".to_owned();
            message.append(id.as_str());
            Ok(WritePlan { url, message })
        },
        Command::Move { id, to } => {
            let token = require_auth_token(cli)?;
            let url = build_move_url(id.as_str(), token.as_str(), to.as_str());
            let mut message = "Moved: ".to_owned();
            message.append(id.as_str());
            Ok(WritePlan { url, message })
        },
        Command::Project { command } => match command {
            ProjectCommand::Add { title, notes, when, deadline, tags, area, todos } => {
                let url = build_add_project_url(
                    &AddProjectParams {
                        title: title.as_str(),
                        notes: as_str_opt(notes),
                        when: as_str_opt(when),
                        deadline: as_str_opt(deadline),
                        tags: as_str_opt(tags),
                        area: as_str_opt(area),
                        todos: todos.as_slice(),
                    },
                );
                let mut message = "Created project: ".to_owned();
                message.append(title.as_str());
                Ok(WritePlan { url, message })
            },
            ProjectCommand::Tasks { .. } => {
                proof {
                    assert(false);
                }
                Err(TdoError::AuthMissing)
            },
        },
        _ => {
            proof {
                assert(false);
            }
            Err(TdoError::AuthMissing)
        },
    }
}

// ---------------------------------------------------------------------------
// The reply to `add`
// ---------------------------------------------------------------------------

/// The parameter of an x-callback-url reply that names the created items.
pub open spec fn callback_key() -> Seq<char> {
    "x-things-id="@
}

/// Whether `key` occurs in `s` at index `i`.
pub open spec fn matches_at(s: Seq<char>, key: Seq<char>, i: int) -> bool {
    0 <= i && i + key.len() <= s.len() && s.subrange(i, i + key.len()) == key
}

/// The first index at or after `i` where `key` occurs in `s`.
pub open spec fn find_from(s: Seq<char>, key: Seq<char>, i: nat) -> Option<int>
    decreases s.len() - i,
{
    if i >= s.len() || i + key.len() > s.len() {
        None
    } else if matches_at(s, key, i as int) {
        Some(i as int)
    } else {
        find_from(s, key, (i + 1) as nat)
    }
}

/// The id that a (trimmed) reply gives: the value of its `x-things-id`
/// parameter, up to the next `&`; a reply without that parameter is taken to
/// be the id itself.
pub open spec fn id_in(t: Seq<char>) -> Seq<char> {
    match find_from(t, callback_key(), 0) {
        Some(i) => {
            let start = i + callback_key().len();
            t.subrange(start, stop_index(t, '&', start as nat) as int)
        },
        None => t,
    }
}

/// The line `add` prints once Things answered with `reply`: the id of the
/// created todo, or, when the reply names none, the todo's title.
pub open spec fn add_output(title: Seq<char>, reply: Seq<char>) -> Seq<char> {
    let id = id_in(trim(reply));
    if id.len() > 0 {
        id
    } else {
        "Created todo: "@ + title
    }
}

/// What `find_from` finds is an occurrence.
proof fn lemma_find_from_matches(s: Seq<char>, key: Seq<char>, k: nat)
    ensures
        find_from(s, key, k) matches Some(i) ==> matches_at(s, key, i) && k <= i < s.len(),
    decreases s.len() - k,
{
    if !(k >= s.len() || k + key.len() > s.len()) && !matches_at(s, key, k as int) {
        lemma_find_from_matches(s, key, (k + 1) as nat);
    }
}

proof fn lemma_stop_index_found(s: Seq<char>, c: char, j: nat, k: nat)
    requires
        j <= k <= s.len(),
        k < s.len() ==> s[k as int] == c,
        forall|i: int| j <= i < k ==> s[i] != c,
    ensures
        stop_index(s, c, j) == k,
    decreases k - j,
{
    if j < k {
        lemma_stop_index_found(s, c, (j + 1) as nat, k);
    }
}

proof fn lemma_find_from_none(s: Seq<char>, key: Seq<char>, k: nat)
    requires
        forall|i: int| k <= i ==> !matches_at(s, key, i),
    ensures
        find_from(s, key, k) is None,
    decreases s.len() - k,
{
    if !(k >= s.len() || k + key.len() > s.len()) {
        assert(!matches_at(s, key, k as int));
        lemma_find_from_none(s, key, (k + 1) as nat);
    }
}

/// A text that neither starts nor ends with whitespace is its own trim.
proof fn lemma_trim_unchanged(s: Seq<char>)
    requires
        s.len() > 0,
        !crate::text::is_whitespace(s[0]),
        !crate::text::is_whitespace(s.last()),
    ensures
        trim(s) == s,
{
    assert(crate::text::leading_ws(s) == 0);
    assert(crate::text::trailing_ws(s) == 0);
    assert(s.subrange(0, s.len() as int) =~= s);
}

/// Law: when Things replies `x-things-id=<id>`, possibly followed by `&`
/// and more parameters, `add` prints exactly that id.
pub proof fn lemma_add_prints_reply_id(title: Seq<char>, id: Seq<char>, rest: Option<Seq<char>>)
    requires
        id.len() > 0,
        forall|i: int| 0 <= i < id.len() ==> id[i] != '&',
        match rest {
            Some(r) => r.len() == 0 || !crate::text::is_whitespace(r.last()),
            None => !crate::text::is_whitespace(id.last()),
        },
    ensures
        add_output(
            title,
            match rest {
                Some(r) => "x-things-id="@ + id + seq!['&'] + r,
                None => "x-things-id="@ + id,
            },
        ) == id,
{
    reveal_strlit("x-things-id=");
    let key = callback_key();
    let reply = match rest {
        Some(r) => key + id + seq!['&'] + r,
        None => key + id,
    };
    assert(reply[0] == 'x');
    lemma_trim_unchanged(reply);
    assert(reply.subrange(0, key.len() as int) =~= key);
    assert(matches_at(reply, key, 0));
    assert(find_from(reply, key, 0) == Some(0int));
    let end = key.len() + id.len();
    assert forall|i: int| key.len() <= i < end implies reply[i] != '&' by {
        assert(reply[i] == id[i - key.len()]);
    }
    lemma_stop_index_found(reply, '&', key.len() as nat, end as nat);
    assert(reply.subrange(key.len() as int, end as int) =~= id);
}

/// Law: a reply that names no `x-things-id` is taken as the id itself, as
/// Things gave it (without surrounding whitespace), and printed.
pub proof fn lemma_add_prints_bare_reply(title: Seq<char>, reply: Seq<char>)
    requires
        reply.len() > 0,
        !crate::text::is_whitespace(reply[0]),
        !crate::text::is_whitespace(reply.last()),
        forall|i: int| !matches_at(reply, callback_key(), i),
    ensures
        add_output(title, reply) == reply,
{
    lemma_trim_unchanged(reply);
    lemma_find_from_none(reply, callback_key(), 0);
}

/// Law: when the reply is empty or only whitespace, `add` prints
/// `Created todo: ` and the title.
pub proof fn lemma_add_prints_title_without_reply(title: Seq<char>, reply: Seq<char>)
    requires
        forall|i: int| 0 <= i < reply.len() ==> crate::text::is_whitespace(#[trigger] reply[i]),
    ensures
        add_output(title, reply) == "Created todo: "@ + title,
{
    lemma_all_ws_trims_empty(reply);
    reveal_strlit("x-things-id=");
    assert(find_from(Seq::<char>::empty(), callback_key(), 0) is None);
}

proof fn lemma_all_ws_trims_empty(s: Seq<char>)
    requires
        forall|i: int| 0 <= i < s.len() ==> crate::text::is_whitespace(#[trigger] s[i]),
    ensures
        crate::text::leading_ws(s) == s.len(),
        trim(s) == Seq::<char>::empty(),
    decreases s.len(),
{
    if s.len() > 0 {
        assert forall|i: int| 0 <= i < s.drop_first().len() implies crate::text::is_whitespace(
            #[trigger] s.drop_first()[i],
        ) by {
            assert(s.drop_first()[i] == s[i + 1]);
        }
        lemma_all_ws_trims_empty(s.drop_first());
        assert(crate::text::is_whitespace(s[0]));
    }
}

/// Whether `key` occurs in `t` at index `i`.
fn occurs_at(t: &str, key: &str, i: usize) -> (r: bool)
    requires
        i + key@.len() <= t@.len(),
    ensures
        r == matches_at(t@, key@, i as int),
{
    let n = t.unicode_len();
    let kl = key.unicode_len();
    let mut j: usize = 0;
    while j < kl
        invariant
            n == t@.len(),
            kl == key@.len(),
            i + kl <= t@.len(),
            0 <= j <= kl,
            forall|k: int| 0 <= k < j ==> t@[i + k] == key@[k],
        decreases kl - j,
    {
        if t.get_char(i + j) != key.get_char(j) {
            proof {
                assert(t@.subrange(i as int, i + kl)[j as int] != key@[j as int]);
            }
            return false;
        }
        j = j + 1;
    }
    assert(t@.subrange(i as int, i + kl) =~= key@);
    true
}

/// The first index where `key` occurs in `t`.
fn find_key(t: &str, key: &str) -> (r: Option<usize>)
    ensures
        match r {
            Some(i) => find_from(t@, key@, 0) == Some(i as int),
            None => find_from(t@, key@, 0) is None,
        },
{
    let n = t.unicode_len();
    let kl = key.unicode_len();
    let mut i: usize = 0;
    while i < n && kl <= n - i
        invariant
            n == t@.len(),
            kl == key@.len(),
            i <= n,
            find_from(t@, key@, 0) == find_from(t@, key@, i as nat),
        decreases n - i,
    {
        if occurs_at(t, key, i) {
            return Some(i);
        }
        i = i + 1;
    }
    None
}

/// The id in a trimmed reply.
fn reply_id(t: &str) -> (r: String)
    ensures
        r@ == id_in(t@),
{
    let key = "x-things-id=";
    proof {
        reveal_strlit("x-things-id=");
    }
    assert(key@ == callback_key());
    match find_key(t, key) {
        Some(i) => {
            let n = t.unicode_len();
            proof {
                lemma_find_from_matches(t@, key@, 0);
            }
            let start = i + key.unicode_len();
            let mut j: usize = start;
            let mut out = String::new();
            proof {
                assert(out@ =~= t@.subrange(start as int, start as int));
            }
            while j < n && t.get_char(j) != '&'
                invariant
                    n == t@.len(),
                    start <= j <= n,
                    stop_index(t@, '&', start as nat) == stop_index(t@, '&', j as nat),
                    out@ == t@.subrange(start as int, j as int),
                decreases n - j,
            {
                let c = t.get_char(j);
                crate::text::push_char(&mut out, c);
                proof {
                    assert(out@ =~= t@.subrange(start as int, j + 1));
                }
                j = j + 1;
            }
            out
        },
        None => t.to_owned(),
    }
}

/// The line to print after `add`, given Things' reply: the id of the
/// created todo, or `Created todo: <title>` when the reply names none.
pub fn add_output_line(title: &str, reply: &str) -> (r: String)
    ensures
        r@ == add_output(title@, reply@),
{
    let t = trim_str(reply);
    let id = reply_id(t.as_str());
    if id.as_str().unicode_len() > 0 {
        id
    } else {
        let mut line = "Created todo: ".to_owned();
        line.append(title);
        line
    }
}

// ---------------------------------------------------------------------------
// Skill installation
// ---------------------------------------------------------------------------

/// `base` joined with the relative path `p`, as `PathBuf::join` does on Unix:
/// a `/` between them unless `base` is empty or already ends in one.
pub open spec fn path_join(base: Seq<char>, p: Seq<char>) -> Seq<char> {
    if base.len() == 0 {
        p
    } else if base.last() == '/' {
        base + p
    } else {
        base + seq!['/'] + p
    }
}

/// The home directory, `~` when it is unknown.
pub open spec fn home_dir(home: Option<String>) -> Seq<char> {
    match home {
        Some(h) => h@,
        None => "~"@,
    }
}

/// `<home>/<skills_dir>/tdo/SKILL.md`.
pub open spec fn skill_file(home: Option<String>, skills_dir: Seq<char>) -> Seq<char> {
    path_join(path_join(path_join(home_dir(home), skills_dir), "tdo"@), "SKILL.md"@)
}

fn join_path(base: &str, p: &str) -> (r: String)
    ensures
        r@ == path_join(base@, p@),
{
    let mut r = base.to_owned();
    let n = base.unicode_len();
    if n > 0 && base.get_char(n - 1) != '/' {
        crate::text::push_char(&mut r, '/');
    }
    r.append(p);
    r
}

/// Where the guide is installed for an agent whose skills live in
/// `skills_dir` under the home directory.
pub fn skill_path(home: Option<String>, skills_dir: &str) -> (r: String)
    ensures
        r@ == skill_file(home, skills_dir@),
{
    let ghost h = home;
    let base = match home {
        Some(h) => h,
        None => "~".to_owned(),
    };
    let a = join_path(base.as_str(), skills_dir);
    let b = join_path(a.as_str(), "tdo");
    join_path(b.as_str(), "SKILL.md")
}

/// Whether a skill file must be written: unless it exists and already holds
/// the guide (`existing` is its content when it exists, empty when unreadable).
pub fn needs_install(existing: Option<String>, guide: &str) -> (r: bool)
    ensures
        r == !(existing matches Some(c) && c@ == guide@),
{
    match existing {
        Some(c) => {
            let g = guide.to_owned();
            !(c == g)
        },
        None => true,
    }
}

/// Whether an answer to the install prompt agrees: `y` or `Y`, ignoring
/// surrounding whitespace.
pub fn confirms_install(answer: &str) -> (r: bool)
    ensures
        r == (trim(answer@) == seq!['y'] || trim(answer@) == seq!['Y']),
{
    let t = trim_str(answer);
    let n = t.as_str().unicode_len();
    if n != 1 {
        proof {
            assert(t@ != seq!['y'] && t@ != seq!['Y']);
        }
        return false;
    }
    let c = t.as_str().get_char(0);
    proof {
        if c == 'y' {
            assert(t@ =~= seq!['y']);
        }
        if c == 'Y' {
            assert(t@ =~= seq!['Y']);
        }
    }
    c == 'y' || c == 'Y'
}

} // verus!
