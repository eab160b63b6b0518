use khonsubase::configuration::{
    configured, Configuration, SessionMaximumDays, SiteDefaultTimezone, SiteIssuePrefix, SiteName,
    SitePrimaryLocale,
};
use khonsubase::jobs::{job, next_wake, ready_jobs, JobInstance};
use khonsubase::schema::accounts::{
    clean_name, Account, AccountError, DatabaseError, SaveAction, User,
};
use khonsubase::schema::cms::Article;
use khonsubase::schema::issues::issue::{
    BlockedUpdates, Issue, IssueOrdering, IssueOrderingField, IssuePagination, IssueQueryBuilder,
    IssueQueryResults,
};
use khonsubase::schema::issues::issue_relationship::{
    ContextualizedRelationship, Relationship, RelationshipParseError,
};
use khonsubase::schema::issues::issue_revision::{
    IssueRevisionView, IssueRevisionViewChange, RevisionRow,
};
use khonsubase::schema::issues::project::{Project, ProjectError};
use khonsubase::schema::issues::tag::Tag;
use khonsubase::schema::issues::tag_group::{GroupOfTag, TagAndGroup, Taxonomy, TaxonomyGroup};
use khonsubase::text::{i64_to_string, join, same_text, trim, usize_to_string};
use khonsubase::time::Timestamp;

const NOW: Timestamp = Timestamp {
    seconds: 1_600_000_000,
    nanos: 5,
};

fn issue(id: i64, parent_id: Option<i64>) -> Issue {
    let mut issue = Issue::new(1, format!("issue {}", id), None, parent_id, None);
    issue.id = id;
    issue
}

#[test]
fn hardcoded_articles() {
    let article = Article::hardcoded("slug", "body");
    assert_eq!(article.id, 0);
    assert_eq!(article.slug, "slug");
    assert_eq!(article.body, "body");
}

#[test]
fn usernames_are_cleaned() {
    assert_eq!(Account::clean_username("  Admin1 \n"), Ok("admin1".to_owned()));
    assert_eq!(Account::clean_username("abc"), Ok("abc".to_owned()));
    assert_eq!(
        Account::clean_username("ab"),
        Err(AccountError::UsernameTooShort)
    );
    assert_eq!(
        Account::clean_username(""),
        Err(AccountError::UsernameTooShort)
    );
    assert_eq!(
        Account::clean_username("a b!"),
        Err(AccountError::UsernameInvalidCharacter(' '))
    );
    assert_eq!(
        Account::clean_username("x-y"),
        Err(AccountError::UsernameInvalidCharacter('-'))
    );
    assert_eq!(
        Account::clean_username("\u{2003}Ünì"),
        Err(AccountError::UsernameInvalidCharacter('Ü'))
    );
    assert_eq!(clean_name(" A-b ", true), Ok("a-b".to_owned()));
    assert_eq!(clean_name(" A-b ", false), Err('-'));
}

#[test]
fn account_errors() {
    assert_eq!(
        AccountError::UsernameTooShort.to_string(),
        "username too short"
    );
    assert_eq!(
        AccountError::UsernameInvalidCharacter('!').to_string(),
        "invalid character '!'"
    );
    assert_eq!(
        AccountError::UsernameConflict.to_string(),
        "username already taken"
    );
    assert_eq!(
        AccountError::Sql("boom".to_owned()).to_string(),
        "sql error: boom"
    );
    assert_eq!(
        AccountError::from_database(DatabaseError::Conflict),
        AccountError::UsernameConflict
    );
    assert_eq!(
        AccountError::from_database(DatabaseError::Other("boom".to_owned())),
        AccountError::Sql("boom".to_owned())
    );
}

#[test]
fn accounts_are_prepared_for_saving() {
    let mut account = Account::new(" Name ", "secret password", false).unwrap();
    assert_eq!(account.prepare_save(), Ok(SaveAction::Insert));
    assert_eq!(account.username, "name");
    account.stored_as(5, NOW);
    assert_eq!(account.id, 5);
    assert_eq!(account.created_at, NOW);
    assert_eq!(account.prepare_save(), Ok(SaveAction::Update));
    account.username = "no good".to_owned();
    assert_eq!(
        account.prepare_save(),
        Err(AccountError::UsernameInvalidCharacter(' '))
    );
    assert_eq!(account.username, "no good");
    let mut user = User {
        id: 1,
        username: " USER ".to_owned(),
        display_name: None,
    };
    assert_eq!(user.prepare_save(), Ok(()));
    assert_eq!(user.username, "user");
    user.username = "u".to_owned();
    assert_eq!(user.prepare_save(), Err(AccountError::UsernameTooShort));
}

#[test]
fn slugs_are_cleaned() {
    assert_eq!(
        Project::cleanup_and_validate_slug(" My-Project-2 "),
        Ok("my-project-2".to_owned())
    );
    assert_eq!(Project::cleanup_and_validate_slug("  "), Ok(String::new()));
    assert_eq!(
        Project::cleanup_and_validate_slug("a_b"),
        Err(ProjectError::SlugInvalidCharacter('_'))
    );
    let mut project = Project::new("A B".to_owned(), "n".to_owned(), None, 1);
    assert_eq!(project.id, 0);
    assert_eq!(
        project.prepare_save(),
        Err(ProjectError::SlugInvalidCharacter(' '))
    );
    project.slug = "AB".to_owned();
    assert_eq!(project.prepare_save(), Ok(SaveAction::Insert));
    assert_eq!(project.slug, "ab");
    project.stored_as(3, NOW);
    assert_eq!(project.prepare_save(), Ok(SaveAction::Update));
    assert_eq!(Project::check_updated(1), Ok(()));
    assert_eq!(
        Project::check_updated(0),
        Err(ProjectError::ProjectNotFound)
    );
}

#[test]
fn project_errors() {
    assert_eq!(
        ProjectError::from_database(DatabaseError::RowNotFound),
        ProjectError::ProjectNotFound
    );
    assert_eq!(
        ProjectError::from_database(DatabaseError::Conflict),
        ProjectError::SlugConflict
    );
    assert_eq!(
        ProjectError::from_database(DatabaseError::Other("x".to_owned())),
        ProjectError::Sql("x".to_owned())
    );
    assert_eq!(
        ProjectError::ProjectNotFound.to_string(),
        "project not found"
    );
    assert_eq!(
        ProjectError::SlugInvalidCharacter('/').to_string(),
        "invalid character in slug '/'"
    );
    assert_eq!(ProjectError::SlugConflict.to_string(), "slug already in use");
    assert_eq!(
        ProjectError::Sql("x".to_owned()).to_string(),
        "sql error: x"
    );
}

#[test]
fn tags() {
    let mut tag = Tag::new("bug".to_owned());
    assert_eq!(tag.id, 0);
    assert_eq!(tag.name, "bug");
    assert_eq!(tag.tag_group_id, None);
    assert_eq!(tag.color, None);
    assert_eq!(tag.save_action(), SaveAction::Insert);
    tag.stored_as(4, NOW);
    assert_eq!(tag.save_action(), SaveAction::Update);
    assert_eq!(tag.created_at, NOW);
    assert_eq!(Tag::check_updated(2), Ok(()));
    assert_eq!(Tag::check_updated(0), Err(DatabaseError::RowNotFound));
}

#[test]
fn relationships_have_words() {
    let words = [
        ("relates", None, false),
        ("blocks", Some(Relationship::Blocks), false),
        ("blocked", Some(Relationship::Blocks), true),
        ("precedes", Some(Relationship::Preceeds), false),
        ("preceded", Some(Relationship::Preceeds), true),
        ("causes", Some(Relationship::Causes), false),
        ("caused", Some(Relationship::Causes), true),
    ];
    for (word, relationship, is_inverse) in words {
        let link = ContextualizedRelationship {
            relationship,
            is_inverse,
        };
        assert_eq!(link.to_string(), word);
        assert_eq!(link.as_str(), word);
        assert_eq!(ContextualizedRelationship::from_str(word), Ok(link));
    }
    let inverse_plain = ContextualizedRelationship {
        relationship: None,
        is_inverse: true,
    };
    assert_eq!(inverse_plain.to_string(), "relates");
    assert_eq!(
        ContextualizedRelationship::from_str("Relates"),
        Err(RelationshipParseError)
    );
    assert_eq!(
        ContextualizedRelationship::from_str(""),
        Err(RelationshipParseError)
    );
    assert_eq!(RelationshipParseError.to_string(), "invalid relationship");
    assert_eq!(
        ContextualizedRelationship::plain(),
        ContextualizedRelationship {
            relationship: None,
            is_inverse: false
        }
    );
    assert_eq!(
        ContextualizedRelationship::new(Relationship::Causes, true),
        ContextualizedRelationship {
            relationship: Some(Relationship::Causes),
            is_inverse: true
        }
    );
    assert_eq!(Relationship::Blocks.code(), 1);
    assert_eq!(Relationship::Preceeds.code(), 2);
    assert_eq!(Relationship::Causes.code(), 3);
    assert_eq!(Relationship::from_code(2), Some(Relationship::Preceeds));
    assert_eq!(Relationship::from_code(0), None);
    assert_eq!(Relationship::from_code(4), None);
    assert_eq!(
        ContextualizedRelationship::of_link(Some(Relationship::Blocks), true),
        Some(ContextualizedRelationship::new(Relationship::Blocks, true))
    );
    assert_eq!(ContextualizedRelationship::of_link(None, true), None);
    assert_eq!(ContextualizedRelationship::plain().named(), None);
    assert_eq!(
        ContextualizedRelationship::new(Relationship::Blocks, false).named(),
        Some("blocks".to_owned())
    );
    assert_eq!(
        ContextualizedRelationship::new(Relationship::Blocks, true).summary_key(),
        "issue-relationship-blocked-summary"
    );
}

#[test]
fn issue_lists_are_built() {
    let builder = IssueQueryBuilder::new();
    assert!(builder.where_clauses.is_empty());
    assert_eq!(builder.ordering, IssueOrdering::default());
    assert_eq!(builder.pagination, IssuePagination::default());
    assert_eq!(
        IssueOrdering::default(),
        IssueOrdering {
            field: IssueOrderingField::Creation,
            ascending: false
        }
    );
    assert_eq!(
        IssuePagination::default(),
        IssuePagination {
            page_size: 50,
            start_at: 0
        }
    );
    let builder = builder
        .authored_by(-4)
        .completed()
        .open()
        .project(Some(12))
        .project(None)
        .owned_by(Some(i64::MIN))
        .owned_by(None)
        .order_by(IssueOrdering {
            field: IssueOrderingField::Completion,
            ascending: true,
        });
    assert_eq!(
        builder.where_clauses,
        vec![
            "author_id = -4",
            "completed_at IS NOT NULL",
            "completed_at IS NULL",
            "project_id = 12",
            "project_id IS NULL",
            "parent_id = -9223372036854775808",
            "parent_id IS NULL",
        ]
    );
    assert_eq!(builder.ordering.field, IssueOrderingField::Completion);
    assert!(builder.ordering.ascending);
}

#[test]
fn orderings_in_sql() {
    let sql = |field, ascending| IssueOrdering { field, ascending }.to_sql();
    assert_eq!(sql(IssueOrderingField::Id, true), "id ASC");
    assert_eq!(sql(IssueOrderingField::Id, false), "id DESC");
    assert_eq!(sql(IssueOrderingField::Creation, true), "created_at ASC");
    assert_eq!(sql(IssueOrderingField::Creation, false), "created_at DESC");
    assert_eq!(
        sql(IssueOrderingField::Completion, true),
        "completed_at ASC, created_at ASC"
    );
    assert_eq!(
        sql(IssueOrderingField::Completion, false),
        "completed_at DESC, created_at DESC"
    );
}

#[test]
fn statement_of_a_list() {
    let where_clauses = "completed_at IS NULL AND parent_id IS NULL";
    let order_by = "created_at DESC";
    let expected = format!(
        r#"SELECT 
                id, 
                author_id, 
                summary, 
                description, 
                project_id,
                parent_id, 
                blocked,
                current_revision_id,
                created_at, 
                started_at,
                completed_at,
                count(*) OVER() as total_count
            FROM issues 
            WHERE {}
            ORDER BY {}
            LIMIT {}
            OFFSET {}"#,
        where_clauses, order_by, 50, 0
    );
    assert_eq!(
        IssueQueryBuilder::new().open().owned_by(None).statement(),
        expected
    );
    let mut builder = IssueQueryBuilder::new().order_by(IssueOrdering {
        field: IssueOrderingField::Id,
        ascending: true,
    });
    builder.pagination = IssuePagination {
        page_size: 10,
        start_at: 30,
    };
    assert!(builder
        .statement()
        .ends_with("WHERE \n            ORDER BY id ASC\n            LIMIT 10\n            OFFSET 30"));
}

#[test]
fn pages_of_issues() {
    let pagination = IssuePagination {
        page_size: 2,
        start_at: 4,
    };
    assert_eq!(
        IssueQueryResults::from_rows(vec![], pagination),
        IssueQueryResults {
            issues: vec![],
            total_count: 0,
            start_at: 0,
            page_size: 0
        }
    );
    let page = IssueQueryResults::from_rows(
        vec![(9, issue(1, None)), (9, issue(2, None))],
        pagination,
    );
    assert_eq!(page.total_count, 9);
    assert_eq!(page.start_at, 4);
    assert_eq!(page.page_size, 2);
    assert_eq!(
        page.issues.iter().map(|issue| issue.id).collect::<Vec<_>>(),
        vec![1, 2]
    );
    let page = IssueQueryResults::from_rows(vec![(-1, issue(1, None))], pagination);
    assert_eq!(page.total_count, usize::MAX);
}

#[test]
fn parents_come_outermost_first() {
    let ids = |issues: Vec<Issue>| issues.iter().map(|issue| issue.id).collect::<Vec<_>>();
    let rows = || {
        vec![
            issue(3, Some(2)),
            issue(1, None),
            issue(4, Some(3)),
            issue(2, Some(1)),
            issue(9, None),
        ]
    };
    assert_eq!(ids(Issue::all_parents(4, rows())), vec![1, 2, 3]);
    assert_eq!(ids(Issue::all_parents(2, rows())), vec![1]);
    assert_eq!(ids(Issue::all_parents(1, rows())), Vec::<i64>::new());
    assert_eq!(ids(Issue::all_parents(5, rows())), Vec::<i64>::new());
    assert_eq!(ids(Issue::all_parents(4, vec![])), Vec::<i64>::new());
    let circle = vec![issue(1, Some(2)), issue(2, Some(3)), issue(3, Some(1))];
    assert_eq!(ids(Issue::all_parents(1, circle)), vec![3, 2]);
    let missing = vec![issue(1, Some(2)), issue(2, Some(7))];
    assert_eq!(ids(Issue::all_parents(1, missing)), vec![2]);
    let twice = vec![issue(1, Some(2)), issue(2, Some(3)), issue(2, None), issue(3, None)];
    assert_eq!(ids(Issue::all_parents(1, twice)), vec![2]);
}

#[test]
fn blocked_status_is_taken_from_the_database() {
    let mut changed = issue(1, None);
    assert_eq!(changed.update_blocked_status(Ok(true)), Ok(()));
    assert!(changed.blocked);
    assert_eq!(
        changed.update_blocked_status(Err(DatabaseError::RowNotFound)),
        Ok(())
    );
    assert!(changed.blocked);
    assert_eq!(
        changed.update_blocked_status(Err(DatabaseError::Conflict)),
        Err(DatabaseError::Conflict)
    );
    assert!(changed.blocked);
    assert_eq!(changed.update_blocked_status(Ok(false)), Ok(()));
    assert!(!changed.blocked);
    assert_eq!(changed.save_action(), SaveAction::Update);
    assert_eq!(Issue::new(1, String::new(), None, None, None).save_action(), SaveAction::Insert);
}

#[test]
fn blocked_updates_look_at_each_issue_once() {
    let mut work = BlockedUpdates::new(vec![1, 2, 2]);
    assert_eq!(work.next(), Some(2));
    work.changed(3);
    work.changed(1);
    assert_eq!(work.next(), Some(1));
    assert_eq!(work.next(), Some(3));
    work.changed(3);
    work.changed(2);
    assert_eq!(work.next(), None);
    assert_eq!(work.next(), None);
    assert_eq!(BlockedUpdates::new(vec![]).next(), None);
}

#[test]
fn revisions_are_grouped() {
    let row = |id: i64, property: Option<&str>, old: Option<&str>| RevisionRow {
        id,
        author_id: 2,
        author_display_name: None,
        author_username: "author".to_owned(),
        created_at: NOW,
        property: property.map(|p| p.to_owned()),
        old_value: old.map(|o| o.to_owned()),
        new_value: Some("new".to_owned()),
    };
    let revisions = IssueRevisionView::list_for(
        8,
        vec![
            row(1, Some("summary"), Some("old")),
            row(1, Some("tags"), None),
            row(2, None, None),
            row(3, Some("parent_id"), None),
            row(1, Some("description"), None),
        ],
    );
    assert_eq!(
        revisions.iter().map(|r| r.id).collect::<Vec<_>>(),
        vec![1, 2, 3, 1]
    );
    assert_eq!(revisions[0].issue_id, 8);
    assert_eq!(revisions[0].author.id, 2);
    assert_eq!(revisions[0].author.username, "author");
    assert_eq!(revisions[0].created_at, NOW);
    assert_eq!(
        revisions[0].changes,
        vec![(
            "summary".to_owned(),
            IssueRevisionViewChange {
                old_value: Some("old".to_owned()),
                new_value: Some("new".to_owned())
            }
        )]
    );
    assert!(revisions[1].changes.is_empty());
    assert_eq!(revisions[3].changes[0].0, "description");
    assert!(IssueRevisionView::<String>::list_for(8, vec![]).is_empty());
}

#[test]
fn taxonomy_of_tags() {
    let row = |tag_id: i32, tag: &str, group: Option<(i32, &str)>| TagAndGroup {
        tag_id,
        tag: tag.to_owned(),
        tag_color: None,
        group: group.map(|(id, name)| GroupOfTag {
            id,
            name: name.to_owned(),
            single_select: id == 1,
            color: Some("red".to_owned()),
        }),
    };
    let taxonomy = Taxonomy::from_rows(vec![
        row(1, "Bug", Some((1, "Kind"))),
        row(2, "Feature", Some((1, "Other name"))),
        row(3, "ÉASY", None),
        row(4, "urgent", Some((2, "Priority"))),
        row(5, "bug", None),
    ]);
    assert_eq!(taxonomy.tags.len(), 5);
    assert_eq!(taxonomy.tags[&3].name, "ÉASY");
    assert_eq!(taxonomy.find("BUG"), Some(5));
    assert_eq!(taxonomy.find("éasy"), Some(3));
    assert_eq!(taxonomy.find("feature"), Some(2));
    assert_eq!(taxonomy.find("none"), None);
    assert_eq!(
        taxonomy.ungrouped_tags,
        [3, 5].into_iter().collect()
    );
    assert_eq!(taxonomy.tag_groups.len(), 2);
    assert_eq!(taxonomy.tag_groups[&1].name, "Kind");
    assert!(taxonomy.tag_groups[&1].single_select);
    assert_eq!(taxonomy.tag_groups[&1].color, Some("red".to_owned()));
    assert_eq!(taxonomy.tag_groups[&1].tags, [1, 2].into_iter().collect());
    assert_eq!(taxonomy.tag_groups[&2].tags, [4].into_iter().collect());
    let mut names = taxonomy.suggested_tags();
    names.sort();
    assert_eq!(names, vec!["Bug", "Feature", "bug", "urgent", "ÉASY"]);
    assert!(Taxonomy::new().suggested_tags().is_empty());
    let group = TaxonomyGroup::new("g".to_owned(), None, false);
    assert_eq!(group.name, "g");
    assert!(group.tags.is_empty());
}

#[test]
fn settings() {
    assert_eq!(SessionMaximumDays::default(), Some(7));
    assert_eq!(SessionMaximumDays::key(), "session-maximum-days");
    assert_eq!(SiteDefaultTimezone::default(), Some("US/Pacific".to_owned()));
    assert_eq!(SiteDefaultTimezone::key(), "site-default-timezone");
    assert_eq!(SiteIssuePrefix::default(), Some("KB-".to_owned()));
    assert_eq!(SiteIssuePrefix::key(), "site-issue-prefix");
    assert_eq!(SiteName::default(), Some("Khonsubase".to_owned()));
    assert_eq!(SiteName::key(), "site-name");
    assert_eq!(SitePrimaryLocale::default(), Some("en-US".to_owned()));
    assert_eq!(SitePrimaryLocale::key(), "site-primary-locale");
    assert_eq!(configured::<SessionMaximumDays>(None), Some(7));
    assert_eq!(configured::<SessionMaximumDays>(Some(Some(3))), Some(3));
    assert_eq!(configured::<SessionMaximumDays>(Some(None)), None);
}

#[test]
fn jobs_are_due_a_period_after_their_last_run() {
    let mut cleanup = job();
    assert_eq!(
        cleanup,
        JobInstance {
            period: 60_000,
            last_executed: None
        }
    );
    assert!(cleanup.is_well_formed());
    assert!(cleanup.is_ready(5));
    assert_eq!(cleanup.next_execution(5), 5);
    cleanup.executed(1_000);
    assert!(!cleanup.is_ready(61_000));
    assert!(cleanup.is_ready(61_001));
    assert_eq!(cleanup.next_execution(5), 61_000);
    let mut other = JobInstance::new(10);
    other.executed(1_000);
    let never = JobInstance::new(500);
    let jobs = vec![cleanup, other, never];
    assert_eq!(ready_jobs(&jobs, 1_011), vec![1, 2]);
    assert_eq!(ready_jobs(&jobs, 1_010), vec![2]);
    assert_eq!(next_wake(&jobs, 2_000), 1_010);
    assert_eq!(next_wake(&vec![cleanup, never], 2_000), 2_000);
    let mut late = JobInstance::new(u64::MAX);
    late.executed(1);
    assert!(!late.is_well_formed());
}

#[test]
fn timestamps() {
    assert_eq!(
        NOW.plus_days(-1),
        Some(Timestamp {
            seconds: 1_600_000_000 - 86_400,
            nanos: 5
        })
    );
    assert_eq!(NOW.plus_days(i64::MAX / 86_400), None);
    assert_eq!(
        Timestamp {
            seconds: -100,
            nanos: 0
        }
        .plus_days(106_751_991_167_300)
        .map(|t| t.seconds),
        Some(106_751_991_167_300 * 86_400 - 100)
    );
    assert!(NOW.is_before(Timestamp {
        seconds: 1_600_000_000,
        nanos: 6
    }));
    assert!(!NOW.is_before(NOW));
    let now = Timestamp::now();
    assert!(now.seconds > 1_600_000_000);
    assert!(now.nanos < 1_000_000_000);
}

#[test]
fn texts() {
    assert_eq!(i64_to_string(0), "0");
    assert_eq!(i64_to_string(-1), "-1");
    assert_eq!(i64_to_string(i64::MAX), "9223372036854775807");
    assert_eq!(i64_to_string(i64::MIN), "-9223372036854775808");
    assert_eq!(usize_to_string(1_000_000), "1000000");
    assert_eq!(join(&vec![], ", "), "");
    assert_eq!(join(&vec!["a".to_owned()], ", "), "a");
    assert_eq!(
        join(&vec!["a".to_owned(), String::new(), "c".to_owned()], " AND "),
        "a AND  AND c"
    );
    assert_eq!(trim("\u{2003}\t a b \u{a0}\n"), "a b");
    assert_eq!(trim("\u{200b}a"), "\u{200b}a");
    assert_eq!(trim(""), "");
    assert!(same_text("é", "é"));
    assert!(!same_text("é", "e"));
    assert!(!same_text("a", "ab"));
    for c in ['\u{9}', '\u{d}', ' ', '\u{85}', '\u{a0}', '\u{1680}', '\u{2000}', '\u{200a}', '\u{2028}', '\u{2029}', '\u{202f}', '\u{205f}', '\u{3000}'] {
        assert_eq!(trim(&format!("{}x{}", c, c)), "x", "{:?}", c);
        assert!(c.is_whitespace());
    }
    for c in ['\u{8}', '\u{e}', '\u{84}', '\u{180e}', '\u{200b}', '\u{2060}', '\u{feff}'] {
        assert_eq!(trim(&c.to_string()), c.to_string(), "{:?}", c);
    }
}
