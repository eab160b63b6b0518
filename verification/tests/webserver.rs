use khonsubase::schema::accounts::{Account, AccountError, DatabaseError, PasswordError, User};
use khonsubase::schema::issues::issue::{Issue, IssueView};
use khonsubase::schema::issues::issue_relationship::{ContextualizedRelationship, Relationship};
use khonsubase::schema::issues::project::{Project, ProjectError};
use khonsubase::schema::issues::tag::Tag;
use khonsubase::schema::issues::tag_group::{TagAndGroup, Taxonomy};
use khonsubase::webserver::tags::{
    classify, new_tags_summary, old_tags_summary, parse_tags, TagChanges, TagInput,
};
use khonsubase::time::Timestamp;
use khonsubase::webserver::articles::{find_article, preformat_markdown, preformat_markdown_with};
use khonsubase::webserver::auth::{
    check_password_meets_requirements, password_outcome, password_requirements, redirect_target,
    session_expiry, session_fits, signout_target, ChangePasswordForm, SessionCookie, SessionData,
    SessionId, SignInError,
};
use khonsubase::webserver::issues::{
    can_edit_issue, issue_address, unassigned_tags, ChangeValue, EditIssueForm, IssueUpdateError,
    LinkIssueForm, PropertyChange, RelationshipSummaryKeyFilter,
};
use khonsubase::webserver::markdown::MarkdownFilter;
use khonsubase::webserver::projects::{save_failure, EditProjectForm};
use khonsubase::webserver::request::{
    encode_query, into_option, map_sql_to_http, Failure, FullPathAndQuery, RequestData,
    UserLanguage,
};
use khonsubase::webserver::users::{
    avatar_geometry, can_edit_user, edit_signin_address, user_address, AvatarGeometry,
    EditUserForm,
};

const NOW: Timestamp = Timestamp {
    seconds: 1_600_000_000,
    nanos: 5,
};

fn issue() -> Issue {
    Issue {
        id: 7,
        author_id: 1,
        summary: "summary".to_owned(),
        description: Some("description".to_owned()),
        project_id: Some(2),
        parent_id: None,
        current_revision_id: Some(10),
        blocked: false,
        created_at: NOW,
        started_at: None,
        completed_at: None,
    }
}

fn form() -> EditIssueForm {
    EditIssueForm {
        issue_id: Some(7),
        parent_id: None,
        current_revision_id: Some(10),
        summary: "summary".to_owned(),
        description: Some("description".to_owned()),
        comment: None,
        started: false,
        completed: false,
        project_id: Some(2),
        tags: String::new(),
    }
}

fn account() -> Account {
    Account::new("admin", "correct horse battery", true).unwrap()
}

#[test]
fn known_articles() {
    let home = find_article("home").unwrap();
    assert_eq!(home.id, 0);
    assert_eq!(home.slug, "home");
    assert!(home.body.starts_with("# Welcome to Khonsubase\n\nThis is a pre-alpha"));
    assert!(find_article("terms-of-service")
        .unwrap()
        .body
        .ends_with("There is no Terms of Service at this time."));
    assert!(find_article("privacy-policy")
        .unwrap()
        .body
        .starts_with("# Privacy Policy"));
    assert!(find_article("signup")
        .unwrap()
        .body
        .ends_with("[here](https://base.khonsulabs.com/issue/21)."));
    assert!(find_article("Home").is_none());
    assert!(find_article("").is_none());
}

#[test]
fn issue_mentions_become_links() {
    assert_eq!(preformat_markdown("nothing here"), "nothing here");
    assert_eq!(
        preformat_markdown("see KB-12, KB- and KB-x7 or KB-007."),
        "see [KB-12](/issue/12), KB- and KB-x7 or [KB-007](/issue/007)."
    );
    assert_eq!(preformat_markdown("KB-1"), "[KB-1](/issue/1)");
    assert_eq!(preformat_markdown("KB-"), "KB-");
    assert_eq!(preformat_markdown("KB-KB-3KB-"), "KB-[KB-3](/issue/3)KB-");
    assert_eq!(preformat_markdown("é KB-5é"), "é [KB-5](/issue/5)é");
    assert_eq!(preformat_markdown(""), "");
}

#[test]
fn issue_mentions_with_other_prefixes() {
    assert_eq!(
        preformat_markdown_with("1-11-2", "1-"),
        "[1-1](/issue/1)[1-2](/issue/2)"
    );
    assert_eq!(preformat_markdown_with("1a", ""), "[1](/issue/1)a");
    assert_eq!(preformat_markdown_with("ab", ""), "ab");
    assert_eq!(preformat_markdown_with("", ""), "");
    assert_eq!(preformat_markdown_with("#1#", "#"), "[#1](/issue/1)#");
}

#[test]
fn issue_mentions_agree_with_splitting() {
    fn by_splitting(markdown: &str, issue_prefix: &str) -> String {
        let mut formatted = String::new();
        let mut parts = markdown.split(issue_prefix);
        formatted.push_str(parts.next().unwrap());
        for part in parts {
            let number_length = part.chars().take_while(|c| c.is_ascii_digit()).count();
            if number_length > 0 {
                let number = &part[0..number_length];
                formatted.push('[');
                formatted.push_str(issue_prefix);
                formatted.push_str(number);
                formatted.push_str("](/issue/");
                formatted.push_str(number);
                formatted.push(')');
                formatted.push_str(&part[number_length..]);
            } else {
                formatted.push_str(issue_prefix);
                formatted.push_str(part);
            }
        }
        formatted
    }
    let texts = ["", "a", "aa1a", "1aa2", "aaa", "a1a1a", "ba3ab", "12", "a12aa"];
    let prefixes = ["", "a", "aa", "1", "a1", "b"];
    for text in texts {
        for prefix in prefixes {
            assert_eq!(
                preformat_markdown_with(text, prefix),
                by_splitting(text, prefix),
                "{:?} {:?}",
                text,
                prefix
            );
        }
    }
}

#[test]
fn addresses_are_encoded_for_the_query() {
    assert_eq!(encode_query("/issue/7/edit?a=b&c"), "/issue/7/edit?a=b&c");
    assert_eq!(
        encode_query("a b\"<>`\u{7f}\n\u{e9}"),
        "a%20b%22%3C%3E%60%7F%0A%C3%A9"
    );
    assert_eq!(
        Failure::redirect_to_signin(Some("/issues/new?summary=a b")),
        Failure::Redirect("/signin?origin=/issues/new?summary=a%20b".to_owned())
    );
    assert_eq!(
        Failure::redirect_to_signin(None),
        Failure::Redirect("/signin".to_owned())
    );
    assert_eq!(Failure::not_found(), Failure::Status(404));
    assert_eq!(Failure::forbidden(), Failure::Status(403));
    assert_eq!(
        Failure::redirect("/x".to_owned()),
        Failure::Redirect("/x".to_owned())
    );
    assert_eq!(map_sql_to_http(&DatabaseError::RowNotFound), 404);
    assert_eq!(map_sql_to_http(&DatabaseError::Conflict), 500);
    assert_eq!(
        Failure::from_database(&DatabaseError::Other("x".to_owned())),
        Failure::Status(500)
    );
}

#[test]
fn request_data() {
    let path = FullPathAndQuery {
        path: "/issues".to_owned(),
        query: Some("a=1".to_owned()),
    };
    assert_eq!(path.path_and_query(), "/issues?a=1");
    let data = RequestData::new(UserLanguage("en-US".to_owned()), path, None);
    assert_eq!(data.language, "en-US");
    assert_eq!(data.current_path, "/issues");
    assert_eq!(data.current_query, Some("a=1".to_owned()));
    assert_eq!(data.current_path_and_query, "/issues?a=1");
    assert!(!data.logged_in());
    assert!(!can_edit_issue(&data, &issue()));
    let path = FullPathAndQuery {
        path: "/".to_owned(),
        query: None,
    };
    let session = SessionData {
        session_id: 1,
        account: account(),
    };
    let data = RequestData::new(UserLanguage("de".to_owned()), path, Some(session));
    assert_eq!(data.current_path_and_query, "/");
    assert!(data.logged_in());
    assert!(can_edit_issue(&data, &issue()));
    let view = IssueView {
        id: 1,
        author: User {
            id: 3,
            username: "u".to_owned(),
            display_name: None,
        },
        summary: String::new(),
        description: None,
        project_slug: None,
        project_name: None,
        parent_id: None,
        blocked: false,
        current_revision_id: None,
        created_at: NOW,
        started_at: None,
        completed_at: None,
    };
    assert!(can_edit_issue(&data, &view));
}

#[test]
fn blank_texts_are_nothing() {
    assert_eq!(into_option(" \t\n".to_owned()), None);
    assert_eq!(into_option(String::new()), None);
    assert_eq!(into_option(" a ".to_owned()), Some(" a ".to_owned()));
    assert_eq!(into_option("\u{a0}\u{3000}".to_owned()), None);
}

#[test]
fn signing_in() {
    assert_eq!(password_outcome(Ok(true)), Ok(()));
    assert_eq!(password_outcome(Ok(false)), Err(SignInError::UserNotFound));
    assert_eq!(
        password_outcome(Err(PasswordError::Hashing)),
        Err(SignInError::InternalError)
    );
    assert_eq!(
        SignInError::UserNotFound.to_string(),
        "sign-in-error-user-not-found"
    );
    assert_eq!(
        SignInError::InternalError.to_string(),
        "sign-in-error-internal-error"
    );
    assert_eq!(
        SignInError::from_database(&DatabaseError::RowNotFound),
        SignInError::UserNotFound
    );
    assert_eq!(
        SignInError::from_database(&DatabaseError::Conflict),
        SignInError::InternalError
    );
    assert_eq!(session_expiry(false, 7, NOW), None);
    assert_eq!(
        session_expiry(true, 7, NOW),
        Some(Timestamp {
            seconds: 1_600_000_000 + 7 * 86_400,
            nanos: 5
        })
    );
    assert!(session_fits(7, NOW));
    assert!(!session_fits(i64::MAX, NOW));
    assert_eq!(redirect_target(&None), "/");
    assert_eq!(redirect_target(&Some("/issues".to_owned())), "/issues");
    assert_eq!(signout_target(None), "/");
    assert_eq!(signout_target(Some("/a".to_owned())), "/a");
}

#[test]
fn session_cookies() {
    let id = SessionId::parse("67e55044-10b1-426f-9247-bb680e5fe0c8").unwrap();
    assert_eq!(id.0, 0x67e5504410b1426f9247bb680e5fe0c8);
    assert_eq!(
        SessionId::parse("67E5504410B1426F9247BB680E5FE0C8"),
        Some(id)
    );
    assert_eq!(SessionId::parse("nothing"), None);
    let cookie = SessionCookie::new(id.0, true);
    assert_eq!(
        cookie,
        SessionCookie {
            name: "session_id".to_owned(),
            value: "67e55044-10b1-426f-9247-bb680e5fe0c8".to_owned(),
            http_only: true,
            same_site_strict: true,
            permanent: true,
            path: "/".to_owned(),
        }
    );
    assert!(!SessionCookie::new(1, false).permanent);
    let first = SessionId::random();
    let second = SessionId::random();
    assert_ne!(first, second);
    assert_eq!((first.0 >> 76) & 0xf, 4);
    assert_eq!((first.0 >> 62) & 0x3, 2);
    assert_eq!(
        second.0 & 0x0000_0000_0000_f000_c000_0000_0000_0000,
        0x0000_0000_0000_4000_8000_0000_0000_0000
    );
}

#[test]
fn password_rules() {
    assert_eq!(
        password_requirements(7, false),
        Err("change-password-error-too-short")
    );
    assert_eq!(
        password_requirements(7, true),
        Err("change-password-error-too-short")
    );
    assert_eq!(
        password_requirements(8, true),
        Err("change-password-error-is-common")
    );
    assert_eq!(password_requirements(8, false), Ok(()));
    assert_eq!(
        check_password_meets_requirements("short"),
        Err("change-password-error-too-short")
    );
    assert_eq!(
        check_password_meets_requirements("1234567\u{1}\u{2}"),
        Err("change-password-error-too-short")
    );
    assert_eq!(
        check_password_meets_requirements("password1"),
        Err("change-password-error-is-common")
    );
    assert_eq!(
        check_password_meets_requirements("xk7#Qm2!vLp9"),
        Ok(())
    );
}

#[test]
fn changing_a_password() {
    let account = account();
    let form = |current: &str, new: &str, confirm: &str| ChangePasswordForm {
        current_password: current.to_owned(),
        new_password: new.to_owned(),
        confirm_password: confirm.to_owned(),
    };
    assert_eq!(
        form("wrong", "short", "other").validate(&account),
        Err("change-password-error-too-short")
    );
    assert_eq!(
        form("wrong", "xk7#Qm2!vLp9", "other").validate(&account),
        Err("change-password-error-password-mismatch")
    );
    assert_eq!(
        form("wrong", "xk7#Qm2!vLp9", " xk7#Qm2!vLp9 ").validate(&account),
        Err("change-password-error-existing-password-incorrect")
    );
    assert_eq!(
        form("correct horse battery", "xk7#Qm2!vLp9", "xk7#Qm2!vLp9").validate(&account),
        Ok(())
    );
    let mut broken = Account::new("admin", "x", true).unwrap();
    broken.password_hash = "no hash".to_owned();
    assert_eq!(
        form("x", "xk7#Qm2!vLp9", "xk7#Qm2!vLp9").validate(&broken),
        Err("internal-error-saving")
    );
}

#[test]
fn passwords_are_hashed_and_checked() {
    let mut account = account();
    assert_eq!(account.id, 0);
    assert!(account.created_at.seconds >= 0);
    assert!(account.created_at.nanos < 1_000_000_000);
    assert_eq!(account.username, "admin");
    assert!(account.administrator);
    assert_eq!(account.display_name, None);
    assert_ne!(account.password_hash, "correct horse battery");
    assert_eq!(account.verify_password("correct horse battery"), Ok(true));
    assert_eq!(account.verify_password("wrong"), Ok(false));
    let before = account.password_hash.clone();
    assert_eq!(account.set_password_hash("another one"), Ok(()));
    assert_ne!(account.password_hash, before);
    assert_eq!(account.verify_password("another one"), Ok(true));
    assert_eq!(account.verify_password("correct horse battery"), Ok(false));
    account.password_hash = "garbage".to_owned();
    assert_eq!(
        account.verify_password("another one"),
        Err(PasswordError::Hashing)
    );
}

#[test]
fn issue_update_errors() {
    let already = IssueUpdateError::IssueAlreadyUpdated {
        current_revision_id: Some(4),
    };
    assert_eq!(already.message_key(), "issues-error-already-updated");
    assert_eq!(already.revision_to_show(Some(3)), Some(4));
    assert_eq!(
        IssueUpdateError::ParentNotFound.message_key(),
        "issues-error-parent-not-found"
    );
    assert_eq!(
        IssueUpdateError::ParentNotFound.revision_to_show(Some(3)),
        Some(3)
    );
    assert_eq!(
        IssueUpdateError::CantCloseBecauseOfChild.message_key(),
        "issues-error-cant-close-child"
    );
    assert_eq!(
        IssueUpdateError::CantCloseBecauseBlocked.message_key(),
        "issues-error-cant-close-blocked"
    );
    assert_eq!(
        IssueUpdateError::InternalError.message_key(),
        "internal-error-saving"
    );
    assert_eq!(
        IssueUpdateError::from_parent_lookup(&DatabaseError::RowNotFound),
        IssueUpdateError::ParentNotFound
    );
    assert_eq!(
        IssueUpdateError::from_parent_lookup(&DatabaseError::Conflict),
        IssueUpdateError::InternalError
    );
}

#[test]
fn forms_that_change_nothing_make_no_revision() {
    let mut changed = issue();
    let mut asked = form();
    asked.started = true;
    assert!(!asked.needs_revision(&changed));
    assert_eq!(asked.check(&changed, true), Ok(()));
    assert_eq!(asked.apply(&mut changed, NOW, 11), vec![]);
    assert_eq!(changed, issue());
}

#[test]
fn forms_change_issues() {
    let mut changed = issue();
    let mut asked = form();
    asked.summary = "new".to_owned();
    asked.description = None;
    asked.started = true;
    asked.completed = true;
    asked.project_id = None;
    asked.parent_id = Some(3);
    assert!(asked.needs_revision(&changed));
    assert_eq!(asked.check(&changed, false), Ok(()));
    assert_eq!(
        asked.check(&changed, true),
        Err(IssueUpdateError::CantCloseBecauseOfChild)
    );
    let later = Timestamp {
        seconds: 1_700_000_000,
        nanos: 0,
    };
    let changes = asked.apply(&mut changed, later, 11);
    assert_eq!(
        changes,
        vec![
            PropertyChange {
                property: "summary",
                old_value: Some(ChangeValue::Text("summary".to_owned())),
                new_value: Some(ChangeValue::Text("new".to_owned())),
            },
            PropertyChange {
                property: "description",
                old_value: Some(ChangeValue::Text("description".to_owned())),
                new_value: None,
            },
            PropertyChange {
                property: "started_at",
                old_value: None,
                new_value: Some(ChangeValue::Moment(later)),
            },
            PropertyChange {
                property: "completed_at",
                old_value: None,
                new_value: Some(ChangeValue::Moment(later)),
            },
            PropertyChange {
                property: "project_id",
                old_value: Some(ChangeValue::Number(2)),
                new_value: None,
            },
            PropertyChange {
                property: "parent_id",
                old_value: None,
                new_value: Some(ChangeValue::Number(3)),
            },
        ]
    );
    assert_eq!(
        changed,
        Issue {
            id: 7,
            author_id: 1,
            summary: "new".to_owned(),
            description: None,
            project_id: None,
            parent_id: Some(3),
            current_revision_id: Some(11),
            blocked: false,
            created_at: NOW,
            started_at: Some(later),
            completed_at: Some(later),
        }
    );
}

#[test]
fn obstacles_to_changing_an_issue() {
    let mut stored = issue();
    let mut asked = form();
    asked.current_revision_id = Some(9);
    assert_eq!(
        asked.check(&stored, false),
        Err(IssueUpdateError::IssueAlreadyUpdated {
            current_revision_id: Some(10)
        })
    );
    let mut asked = form();
    asked.completed = true;
    stored.blocked = true;
    assert_eq!(
        asked.check(&stored, false),
        Err(IssueUpdateError::CantCloseBecauseBlocked)
    );
    stored.completed_at = Some(NOW);
    assert_eq!(asked.check(&stored, true), Ok(()));
    let mut asked = form();
    asked.comment = Some("why".to_owned());
    stored.completed_at = None;
    assert_eq!(asked.check(&stored, true), Ok(()));
    let mut changed = issue();
    assert_eq!(asked.apply(&mut changed, NOW, 12), vec![]);
    assert_eq!(changed.current_revision_id, Some(12));
}

#[test]
fn new_issues_from_forms() {
    let mut asked = form();
    asked.issue_id = None;
    asked.started = true;
    let made = asked.create(5, NOW);
    assert_eq!(
        made,
        Issue {
            id: 0,
            author_id: 5,
            summary: "summary".to_owned(),
            description: Some("description".to_owned()),
            project_id: Some(2),
            parent_id: None,
            current_revision_id: None,
            blocked: false,
            created_at: NOW,
            started_at: Some(NOW),
            completed_at: None,
        }
    );
    assert_eq!(asked.signin_origin(), "/issues/new");
    assert_eq!(form().signin_origin(), "/issue/7/edit");
    assert_eq!(issue_address(-3), "/issue/-3");
}

#[test]
fn tags_without_a_group() {
    let tag = |name: &str, group: Option<i32>| Tag {
        id: 1,
        name: name.to_owned(),
        tag_group_id: group,
        color: None,
        created_at: NOW,
    };
    assert_eq!(
        unassigned_tags(&vec![
            tag("a", None),
            tag("b", Some(1)),
            tag("c", None)
        ]),
        vec!["a".to_owned(), "c".to_owned()]
    );
    assert_eq!(unassigned_tags(&vec![]), Vec::<String>::new());
}

#[test]
fn links_between_issues() {
    let asked = |relationship: &str, comment: Option<&str>| LinkIssueForm {
        target: 9,
        relationship: relationship.to_owned(),
        comment: comment.map(|c| c.to_owned()),
    };
    let link = asked("blocks", Some("  because  ")).link(4).unwrap();
    assert_eq!((link.issue_a, link.issue_b), (4, 9));
    assert_eq!(link.relationship, Some(Relationship::Blocks));
    assert_eq!(link.comment, Some("because".to_owned()));
    assert!(link.changes_blocked());
    let link = asked("caused", Some("   ")).link(4).unwrap();
    assert_eq!((link.issue_a, link.issue_b), (9, 4));
    assert_eq!(link.relationship, Some(Relationship::Causes));
    assert_eq!(link.comment, None);
    assert!(!link.changes_blocked());
    let link = asked("relates", None).link(4).unwrap();
    assert_eq!((link.issue_a, link.issue_b), (4, 9));
    assert_eq!(link.relationship, None);
    assert!(asked("Blocks", None).link(4).is_err());
    assert_eq!(
        RelationshipSummaryKeyFilter::filter(None),
        "issue-relationship-relates-summary"
    );
    assert_eq!(
        RelationshipSummaryKeyFilter::filter(Some(ContextualizedRelationship::new(
            Relationship::Preceeds,
            true
        ))),
        "issue-relationship-preceded-summary"
    );
}

#[test]
fn markdown_is_rendered() {
    assert_eq!(
        MarkdownFilter::filter(Some("# Title\n\ntext")),
        Ok("<h1>Title</h1>\n<p>text</p>\n".to_owned())
    );
    assert_eq!(
        MarkdownFilter::filter(None),
        Err("Value passed to markdown filter needs to be a string")
    );
    assert!(MarkdownFilter::is_safe());
}

#[test]
fn project_forms() {
    let asked = EditProjectForm {
        project_id: 0,
        slug: "Slug".to_owned(),
        name: "Name".to_owned(),
        description: Some(String::new()),
    };
    assert!(asked.is_new());
    assert!(asked.may_be_saved_by(5, false));
    assert!(!asked.may_be_saved_by(0, false));
    assert!(asked.may_be_saved_by(0, true));
    assert_eq!(asked.signin_origin(), "/projects/new");
    assert_eq!(
        asked.create(5, NOW),
        Project {
            id: 0,
            slug: "Slug".to_owned(),
            name: "Name".to_owned(),
            description: None,
            owner_id: 5,
            created_at: NOW,
        }
    );
    let asked = EditProjectForm {
        project_id: 12,
        slug: "other".to_owned(),
        name: "Other".to_owned(),
        description: Some("about".to_owned()),
    };
    assert_eq!(asked.signin_origin(), "/project/12/edit");
    let mut project = Project::new("a".to_owned(), "b".to_owned(), None, 3);
    project.id = 12;
    let made = project.created_at;
    asked.apply(&mut project);
    assert_eq!(
        project,
        Project {
            id: 12,
            slug: "other".to_owned(),
            name: "Other".to_owned(),
            description: Some("about".to_owned()),
            owner_id: 3,
            created_at: made,
        }
    );
    assert!(project.editable_by(3, false));
    assert!(project.editable_by(4, true));
    assert!(!project.editable_by(4, false));
    assert_eq!(
        save_failure(&ProjectError::SlugInvalidCharacter('!')),
        Ok("project-error-invalid-username")
    );
    assert_eq!(
        save_failure(&ProjectError::SlugConflict),
        Ok("project-error-slug-conflict")
    );
    assert_eq!(
        save_failure(&ProjectError::ProjectNotFound),
        Err(Failure::Status(404))
    );
    assert_eq!(
        save_failure(&ProjectError::Sql("x".to_owned())),
        Ok("internal-error-saving")
    );
}

#[test]
fn user_forms_and_avatars() {
    let asked = EditUserForm {
        user_id: 3,
        username: "New".to_owned(),
        displayname: Some(String::new()),
    };
    let mut user = User {
        id: 3,
        username: "old".to_owned(),
        display_name: Some("Old".to_owned()),
    };
    asked.apply(&mut user);
    assert_eq!(
        user,
        User {
            id: 3,
            username: "New".to_owned(),
            display_name: None
        }
    );
    assert_eq!(
        khonsubase::webserver::users::save_failure(&AccountError::UsernameTooShort),
        "user-error-invalid-username"
    );
    assert_eq!(
        khonsubase::webserver::users::save_failure(&AccountError::UsernameInvalidCharacter('x')),
        "user-error-invalid-username"
    );
    assert_eq!(
        khonsubase::webserver::users::save_failure(&AccountError::UsernameConflict),
        "user-error-username-conflict"
    );
    assert_eq!(
        khonsubase::webserver::users::save_failure(&AccountError::Sql(String::new())),
        "internal-error-saving"
    );
    assert_eq!(user_address(3), "/user/3");
    assert_eq!(edit_signin_address(3), "/signin?origin=/user/3/edit");
    assert!(can_edit_user(3, 3));
    assert!(!can_edit_user(3, 4));
    let geometry = |scale, border| Some(AvatarGeometry { scale, border });
    assert_eq!(avatar_geometry(None), geometry(48, 8));
    assert_eq!(avatar_geometry(Some(512)), geometry(384, 64));
    assert_eq!(avatar_geometry(Some(256)), geometry(192, 32));
    assert_eq!(avatar_geometry(Some(128)), geometry(96, 16));
    assert_eq!(avatar_geometry(Some(64)), geometry(48, 8));
    assert_eq!(avatar_geometry(Some(32)), geometry(24, 4));
    assert_eq!(avatar_geometry(Some(16)), geometry(12, 2));
    assert_eq!(avatar_geometry(Some(100)), None);
    assert_eq!(avatar_geometry(Some(0)), None);
}

#[test]
fn avatars_are_pictures() {
    let picture = khonsubase::webserver::users::user_avatar("admin", None).unwrap();
    assert_eq!(&picture[0..2], &[0xff, 0xd8]);
    let again = khonsubase::webserver::users::user_avatar("admin", Some(64)).unwrap();
    assert_eq!(picture, again);
    let other = khonsubase::webserver::users::user_avatar("other", Some(64)).unwrap();
    assert_ne!(picture, other);
    let larger = khonsubase::webserver::users::user_avatar("admin", Some(128)).unwrap();
    assert!(larger.len() > picture.len());
    assert_eq!(
        khonsubase::webserver::users::user_avatar("admin", Some(65)),
        Err(500)
    );
}

#[test]
fn tags_of_a_form() {
    assert_eq!(
        parse_tags(" a, ,b b ,, c", None),
        vec!["a".to_owned(), "b b".to_owned(), "c".to_owned()]
    );
    assert_eq!(parse_tags("", None), Vec::<String>::new());
    assert_eq!(parse_tags(" , ", None), Vec::<String>::new());
    assert_eq!(
        parse_tags(
            "ignored",
            Some(vec![" x ".to_owned(), String::new(), "y".to_owned()])
        ),
        vec![" x ".to_owned(), "y".to_owned()]
    );
    let taxonomy = Taxonomy::from_rows(vec![TagAndGroup {
        tag_id: 4,
        tag: "Bug".to_owned(),
        tag_color: None,
        group: None,
    }]);
    assert_eq!(classify(&taxonomy, "BUG"), TagInput::Known(4));
    assert_eq!(
        classify(&taxonomy, "Feature"),
        TagInput::New("Feature".to_owned())
    );
    let tag = |id: i32, name: &str| Tag {
        id,
        name: name.to_owned(),
        tag_group_id: None,
        color: None,
        created_at: NOW,
    };
    let existing = vec![tag(1, "beta"), tag(2, "Alpha"), tag(3, "alpha")];
    let changes = TagChanges::between(&existing, &vec![5, 2, 5, 7, 2]);
    assert_eq!(changes.to_remove, vec![1, 3]);
    assert_eq!(changes.to_insert, vec![5, 7]);
    assert!(!changes.is_empty());
    assert!(TagChanges::between(&existing, &vec![3, 2, 1]).is_empty());
    assert!(TagChanges::between(&vec![], &vec![]).is_empty());
    assert_eq!(
        old_tags_summary(&existing),
        Some("Alpha, alpha, beta".to_owned())
    );
    assert_eq!(old_tags_summary(&vec![]), None);
    assert_eq!(
        new_tags_summary(vec!["b".to_owned(), "a".to_owned(), "B".to_owned()]),
        Some("B, a, b".to_owned())
    );
    assert_eq!(new_tags_summary(vec![]), None);
}
