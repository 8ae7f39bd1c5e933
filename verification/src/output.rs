//! The lines the command-line tool prints.
use vstd::prelude::*;

use crate::models::app::{app_views, AppView};
use crate::models::{App, Presence};
use crate::text::{join, join_strings, opt_view, views};

verus! {

/// The lines printed after starting a presence: the application id, then the
/// details and the state when present.
pub open spec fn start_text(
    application_id: Seq<char>,
    details: Option<Seq<char>>,
    state: Option<Seq<char>>,
) -> Seq<Seq<char>> {
    seq!["Started activity for "@ + application_id] + match details {
        Some(d) => seq!["details: "@ + d],
        None => Seq::empty(),
    } + match state {
        Some(s) => seq!["state: "@ + s],
        None => Seq::empty(),
    }
}

/// The lines printed for one application: its name and id, then its aliases
/// separated by commas when it has any.
pub open spec fn app_entry_text(app: AppView) -> Seq<Seq<char>> {
    seq![app.name + " ("@ + app.application_id + ")"@] + if app.aliases.len() > 0 {
        seq!["  aliases: "@ + join(app.aliases, ", "@)]
    } else {
        Seq::empty()
    }
}

/// The lines printed for applications, one entry after another.
pub open spec fn app_entries_text(apps: Seq<AppView>) -> Seq<Seq<char>>
    decreases apps.len(),
{
    if apps.len() == 0 {
        Seq::empty()
    } else {
        app_entries_text(apps.drop_last()) + app_entry_text(apps.last())
    }
}

/// The lines printed for a list of applications, or a notice that there are
/// none.
pub open spec fn apps_text(apps: Seq<AppView>) -> Seq<Seq<char>> {
    if apps.len() == 0 {
        seq!["No applications found."@]
    } else {
        app_entries_text(apps)
    }
}

fn push_line(v: &mut Vec<String>, s: String)
    ensures
        views(final(v)@) == views(old(v)@).push(s@),
{
    let ghost before = v@;
    v.push(s);
    assert(views(v@) =~= views(before).push(s@));
}

/// The lines to print after starting `presence`.
pub fn start_lines(presence: &Presence) -> (res: Vec<String>)
    ensures
        views(res@) == start_text(
            presence.application_id@,
            opt_view(presence.details),
            opt_view(presence.state),
        ),
{
    let mut v: Vec<String> = Vec::new();
    let mut first = "Started activity for ".to_owned();
    first.append(presence.application_id.as_str());
    push_line(&mut v, first);
    let ghost head = views(v@);
    match &presence.details {
        Some(d) => {
            let mut l = "details: ".to_owned();
            l.append(d.as_str());
            push_line(&mut v, l);
        },
        None => {},
    }
    let ghost mid = views(v@);
    match &presence.state {
        Some(st) => {
            let mut l = "state: ".to_owned();
            l.append(st.as_str());
            push_line(&mut v, l);
        },
        None => {},
    }
    assert(views(v@) =~= start_text(
        presence.application_id@,
        opt_view(presence.details),
        opt_view(presence.state),
    ));
    v
}

/// The lines to print for `apps`.
pub fn app_lines(apps: &[App]) -> (res: Vec<String>)
    ensures
        views(res@) == apps_text(app_views(apps@)),
{
    let mut v: Vec<String> = Vec::new();
    if apps.len() == 0 {
        push_line(&mut v, "No applications found.".to_owned());
        assert(views(v@) =~= seq!["No applications found."@]);
        return v;
    }
    let ghost all = app_views(apps@);
    assert(views(v@) =~= app_entries_text(all.take(0)));
    for i in 0..apps.len()
        invariant
            all == app_views(apps@),
            all.len() == apps@.len(),
            views(v@) == app_entries_text(all.take(i as int)),
    {
        let app = &apps[i];
        assert(all.take(i + 1).drop_last() =~= all.take(i as int));
        assert(all.take(i + 1).last() == app@);
        let ghost before = views(v@);
        let mut head = app.name.clone();
        head.append(" (");
        head.append(app.application_id.as_str());
        head.append(")");
        push_line(&mut v, head);
        if app.aliases.len() > 0 {
            let mut l = "  aliases: ".to_owned();
            let joined = join_strings(app.aliases.as_slice(), ", ");
            l.append(joined.as_str());
            push_line(&mut v, l);
        }
        assert(views(v@) =~= before + app_entry_text(app@));
    }
    assert(all.take(apps@.len() as int) =~= all);
    v
}

/// The entries of two runs of applications are those of the first run, then
/// those of the second.
proof fn lemma_entries_concat(a: Seq<AppView>, b: Seq<AppView>)
    ensures
        app_entries_text(a + b) == app_entries_text(a) + app_entries_text(b),
    decreases b.len(),
{
    if b.len() == 0 {
        assert(a + b =~= a);
        assert(app_entries_text(a) + app_entries_text(b) =~= app_entries_text(a));
    } else {
        lemma_entries_concat(a, b.drop_last());
        assert((a + b).drop_last() =~= a + b.drop_last());
        assert((a + b).last() == b.last());
        assert(app_entries_text(a + b) =~= app_entries_text(a) + app_entries_text(b));
    }
}

/// Every application of a listing gets a line with its name and id, and,
/// when it has at least one alias, the line right after it reads
/// `  aliases: ` and its aliases separated by commas; a single alias is
/// printed as it is.
pub proof fn law_every_alias_list_printed(apps: Seq<AppView>, i: int)
    requires
        0 <= i < apps.len(),
    ensures
        exists|p: int|
            0 <= p < apps_text(apps).len() && #[trigger] apps_text(apps)[p] == apps[i].name
                + " ("@ + apps[i].application_id + ")"@ && (apps[i].aliases.len() > 0 ==> p + 1
                < apps_text(apps).len() && apps_text(apps)[p + 1] == "  aliases: "@ + join(
                apps[i].aliases,
                ", "@,
            )) && (apps[i].aliases.len() == 1 ==> apps_text(apps)[p + 1] == "  aliases: "@
                + apps[i].aliases[0]),
{
    let before = apps.take(i);
    let after = apps.skip(i + 1);
    assert(apps =~= before + seq![apps[i]] + after);
    lemma_entries_concat(before + seq![apps[i]], after);
    lemma_entries_concat(before, seq![apps[i]]);
    let one = seq![apps[i]];
    assert(one.drop_last() =~= Seq::<AppView>::empty());
    assert(one.last() == apps[i]);
    assert(app_entries_text(one.drop_last()) == Seq::<Seq<char>>::empty());
    assert(app_entries_text(seq![apps[i]]) =~= app_entry_text(apps[i]));
    let p = app_entries_text(before).len() as int;
    let all = app_entries_text(apps);
    assert(all == app_entries_text(before) + app_entry_text(apps[i]) + app_entries_text(after));
    assert(all[p] == app_entry_text(apps[i])[0]);
    if apps[i].aliases.len() > 0 {
        assert(all[p + 1] == app_entry_text(apps[i])[1]);
    }
    if apps[i].aliases.len() == 1 {
        assert(join(apps[i].aliases, ", "@) == apps[i].aliases[0]);
    }
    assert(apps_text(apps)[p] == apps[i].name + " ("@ + apps[i].application_id + ")"@);
}

} // verus!
