//! Projects: templates and their scaffold files, and project names.
use vstd::prelude::*;
use chrono::NaiveDateTime;

use crate::domain::shared::project_path::{opened_as_root, ProjectPath};
use crate::domain::DomainError;
use crate::support::path::{file_name_of, path_file_name};
use crate::text::{chars_of, concat_vec, contains_char, eq_str, has_prefix, is_blank_vec, owned, starts_with_str, string_of, trim, trim_vec};

verus! {

/// Project template.
#[derive(Debug, Clone, Copy, PartialEq, Eq, Structural)]
pub enum ProjectTemplate {
    /// An empty project.
    Empty,
    /// A cargo project.
    Rust,
    /// An npm project.
    Node,
}

/// The template a request string names.
pub open spec fn parse_template(s: Seq<char>) -> Option<ProjectTemplate> {
    if s == "empty"@ {
        Some(ProjectTemplate::Empty)
    } else if s == "rust"@ {
        Some(ProjectTemplate::Rust)
    } else if s == "node"@ {
        Some(ProjectTemplate::Node)
    } else {
        None
    }
}

/// The scaffold of a template for a project named `name`: relative paths and
/// contents.
pub open spec fn scaffold(t: ProjectTemplate, name: Seq<char>) -> Seq<(Seq<char>, Seq<char>)> {
    match t {
        ProjectTemplate::Empty => seq![("README.md"@, "# "@ + name + "\n"@)],
        ProjectTemplate::Rust => seq![
            ("Cargo.toml"@, "[package]\nname = \""@ + name + "\"\nversion = \"0.1.0\"\nedition = \"2021\"\n"@),
            ("src/main.rs"@, "fn main() {\n    println!(\"Hello, world!\");\n}\n"@),
            (".gitignore"@, "/target\n"@),
        ],
        ProjectTemplate::Node => seq![
            ("package.json"@, "{\n  \"name\": \""@ + name + "\",\n  \"version\": \"0.1.0\",\n  \"private\": true\n}\n"@),
            ("index.js"@, "console.log('Hello, world!');\n"@),
            (".gitignore"@, "node_modules/\n"@),
        ],
    }
}

/// The views of (path, content) pairs.
pub open spec fn file_views(v: Seq<(String, String)>) -> Seq<(Seq<char>, Seq<char>)> {
    v.map_values(|p: (String, String)| (p.0@, p.1@))
}

fn framed(head: &str, name: &str, tail: &str) -> (r: String)
    ensures
        r@ == head@ + name@ + tail@,
{
    let a = concat_vec(&chars_of(head), &chars_of(name));
    string_of(&concat_vec(&a, &chars_of(tail)))
}

impl ProjectTemplate {
    /// Parses a request string; anything else is a validation error naming it.
    pub fn parse(s: &str) -> (r: Result<ProjectTemplate, DomainError>)
        ensures
            match parse_template(s@) {
                Some(t) => r == Ok::<ProjectTemplate, DomainError>(t),
                None => r matches Err(DomainError::Validation(m)) && m@ == "未知项目模板："@ + s@,
            },
    {
        let v = chars_of(s);
        if eq_str(&v, "empty") {
            Ok(ProjectTemplate::Empty)
        } else if eq_str(&v, "rust") {
            Ok(ProjectTemplate::Rust)
        } else if eq_str(&v, "node") {
            Ok(ProjectTemplate::Node)
        } else {
            Err(DomainError::Validation(string_of(&concat_vec(&chars_of("未知项目模板："), &v))))
        }
    }

    /// The scaffold files (see [`scaffold`]); writing them is left to the
    /// caller.
    pub fn scaffold_files(&self, project_name: &str) -> (r: Vec<(String, String)>)
        ensures
            file_views(r@) == scaffold(*self, project_name@),
    {
        let mut v: Vec<(String, String)> = Vec::new();
        match self {
            ProjectTemplate::Empty => {
                v.push((owned("README.md"), framed("# ", project_name, "\n")));
            },
            ProjectTemplate::Rust => {
                v.push((
                    owned("Cargo.toml"),
                    framed("[package]\nname = \"", project_name, "\"\nversion = \"0.1.0\"\nedition = \"2021\"\n"),
                ));
                v.push((owned("src/main.rs"), owned("fn main() {\n    println!(\"Hello, world!\");\n}\n")));
                v.push((owned(".gitignore"), owned("/target\n")));
            },
            ProjectTemplate::Node => {
                v.push((
                    owned("package.json"),
                    framed("{\n  \"name\": \"", project_name, "\",\n  \"version\": \"0.1.0\",\n  \"private\": true\n}\n"),
                ));
                v.push((owned("index.js"), owned("console.log('Hello, world!');\n")));
                v.push((owned(".gitignore"), owned("node_modules/\n")));
            },
        }
        assert(file_views(v@) =~= scaffold(*self, project_name@));
        v
    }
}

/// A project.
#[derive(Debug, Clone)]
pub struct Project {
    /// Primary key (filled after insert).
    pub id: i64,
    /// Name.
    pub name: String,
    /// Canonical absolute path.
    pub path: String,
    /// Last time it was opened.
    pub last_opened_at: Option<NaiveDateTime>,
    /// Creation time.
    pub created_at: NaiveDateTime,
    /// Last update time.
    pub updated_at: NaiveDateTime,
}

/// Why a new project name is refused, if it is: blank, or holding a path
/// separator or starting with `.` (once trimmed).
pub open spec fn project_name_invalid(name: Seq<char>) -> Option<Seq<char>> {
    let n = trim(name);
    if n.len() == 0 {
        Some("项目名不能为空"@)
    } else if n.contains('/') || n.contains('\\') || has_prefix(n, "."@) {
        Some("项目名不能包含路径分隔符或以 . 开头"@)
    } else {
        None
    }
}

impl Project {
    /// Checks the path and gives the project root (see [`ProjectPath::new`]).
    pub fn validate_path(path: &str) -> (r: Result<ProjectPath, DomainError>)
        ensures
            opened_as_root(path@, r),
    {
        ProjectPath::new(path)
    }

    /// A project for a root (not stored yet), named after the root's last
    /// component (`未命名项目` when it has none), opened now.
    pub fn from_path(root: &ProjectPath, now: NaiveDateTime) -> (p: Project)
        ensures
            p.id == 0,
            p.name@ == (match file_name_of(root.root_view()) {
                Some(n) => n,
                None => "未命名项目"@,
            }),
            p.path@ == root.root_view(),
            p.last_opened_at == Some(now),
            p.created_at == now,
            p.updated_at == now,
    {
        let name = match path_file_name(root.root()) {
            Some(n) => n,
            None => owned("未命名项目"),
        };
        Project {
            id: 0,
            name,
            path: owned(root.root()),
            last_opened_at: Some(now),
            created_at: now,
            updated_at: now,
        }
    }

    /// Validates a new project's name (see [`project_name_invalid`]).
    pub fn validate_new_name(name: &str) -> (r: Result<(), DomainError>)
        ensures
            match project_name_invalid(name@) {
                None => r is Ok,
                Some(m) => r matches Err(DomainError::Validation(e)) && e@ == m,
            },
    {
        let n = trim_vec(&chars_of(name));
        if n.len() == 0 {
            return Err(DomainError::Validation(owned("项目名不能为空")));
        }
        if contains_char(&n, '/') || contains_char(&n, '\\') || starts_with_str(&n, ".") {
            return Err(DomainError::Validation(owned("项目名不能包含路径分隔符或以 . 开头")));
        }
        Ok(())
    }
}

} // verus!
