//! What the menu-bar status item lists for the selected account.
use vstd::prelude::*;
use crate::accounts::Account;
use crate::clock::Instant;
use crate::accounts::contains_text;
use crate::text::{chars_of, push_decimal, push_str, same_text, string_of};
use crate::usage::{Usage, Window, limit_windows};

verus! {

/// The last usage reading of an account.
pub struct UsageView {
    pub data: Option<Usage>,
    /// When the reading was taken.
    pub checked: Option<Instant>,
    pub error: Option<String>,
}

impl UsageView {
    /// No reading yet.
    pub fn new() -> (r: UsageView)
        ensures
            r.data is None && r.checked is None && r.error is None,
    {
        UsageView { data: None, checked: None, error: None }
    }

    /// Takes the result of a reading made at `now`. A failed reading keeps
    /// the previous data, which is then shown as stale, never as zero usage.
    pub fn record(&mut self, result: Result<Usage, String>, now: Instant)
        ensures
            match result {
                Ok(d) => final(self).data == Some(d) && final(self).checked == Some(now)
                    && final(self).error is None,
                Err(e) => final(self).data == old(self).data && final(self).checked
                    == old(self).checked && final(self).error == Some(e),
            },
    {
        match result {
            Ok(d) => {
                self.data = Some(d);
                self.checked = Some(now);
                self.error = None;
            },
            Err(e) => {
                self.error = Some(e);
            },
        }
    }

    /// The reading was interrupted before any answer.
    pub fn interrupted(&mut self)
        ensures
            final(self).data == old(self).data,
            final(self).checked == old(self).checked,
            final(self).error matches Some(e) && e@ == interrupted_text(),
    {
        self.error = Some(String::from_str("Reading the limits was interrupted."));
    }
}

/// The error left on every listed account when a refresh is interrupted.
pub open spec fn interrupted_text() -> Seq<char> {
    "Reading the limits was interrupted."@
}

/// The reading kept for `id`: that of its last entry.
pub open spec fn reading_of(entries: Seq<(String, UsageView)>, id: Seq<char>) -> Option<UsageView>
    decreases entries.len(),
{
    if entries.len() == 0 {
        None
    } else if entries.last().0@ == id {
        Some(entries.last().1)
    } else {
        reading_of(entries.drop_last(), id)
    }
}

/// `id` is one of `ids`.
pub open spec fn listed(ids: Seq<String>, id: Seq<char>) -> bool {
    exists|i: int| 0 <= i < ids.len() && (#[trigger] ids[i])@ == id
}

/// `after` is `before` (a blank reading when there was none) once it took
/// `result`, read at `now`.
pub open spec fn recorded(
    before: Option<UsageView>,
    after: UsageView,
    result: Result<Usage, String>,
    now: Instant,
) -> bool {
    match result {
        Ok(d) => after.data == Some(d) && after.checked == Some(now) && after.error is None,
        Err(e) => after.error == Some(e) && match before {
            Some(b) => after.data == b.data && after.checked == b.checked,
            None => after.data is None && after.checked is None,
        },
    }
}

/// `after` is `before` (a blank reading when there was none) marked as
/// interrupted, its data kept.
pub open spec fn marked_interrupted(before: Option<UsageView>, after: UsageView) -> bool {
    &&& after.error matches Some(e) && e@ == interrupted_text()
    &&& match before {
        Some(b) => after.data == b.data && after.checked == b.checked,
        None => after.data is None && after.checked is None,
    }
}

/// The readings of the listed accounts, by profile id.
pub struct UsageBook {
    pub entries: Vec<(String, UsageView)>,
}

impl UsageBook {
    pub open spec fn reading(self, id: Seq<char>) -> Option<UsageView> {
        reading_of(self.entries@, id)
    }

    /// No readings yet.
    pub fn new() -> (r: UsageBook)
        ensures
            forall|id: Seq<char>| #[trigger] r.reading(id) is None,
    {
        UsageBook { entries: Vec::new() }
    }

    /// Removes the reading of `id` and hands it back.
    fn take(&mut self, id: &str) -> (r: Option<UsageView>)
        ensures
            r == old(self).reading(id@),
            forall|k: Seq<char>|
                #[trigger] final(self).reading(k) == if k == id@ {
                    None
                } else {
                    old(self).reading(k)
                },
    {
        let ghost all = self.entries@;
        let mut rest: Vec<(String, UsageView)> = Vec::new();
        std::mem::swap(&mut rest, &mut self.entries);
        proof {
            assert(rest@.len() == rest.len());
        }
        let mut found: Option<UsageView> = None;
        let mut j: usize = 0;
        while rest.len() > 0
            invariant
                j + rest@.len() == all.len(),
                all.len() <= usize::MAX,
                rest@ == all.skip(j as int),
                found == reading_of(all.take(j as int), id@),
                forall|k: Seq<char>|
                    #[trigger] reading_of(self.entries@, k) == if k == id@ {
                        None
                    } else {
                        reading_of(all.take(j as int), k)
                    },
            decreases rest.len(),
        {
            let e = rest.remove(0);
            let ghost ge = e;
            proof {
                assert(all.take(j + 1).drop_last() =~= all.take(j as int));
                assert(all.take(j + 1).last() == e);
                assert(rest@ =~= all.skip(j + 1));
            }
            let ghost before = self.entries@;
            if same_text(e.0.as_str(), id) {
                found = Some(e.1);
            } else {
                self.entries.push(e);
                proof {
                    assert(self.entries@.drop_last() =~= before);
                }
            }
            proof {
                assert forall|k: Seq<char>|
                    #[trigger] reading_of(self.entries@, k) == (if k == id@ {
                        None
                    } else {
                        reading_of(all.take(j + 1), k)
                    }) by {
                    assert(reading_of(all.take(j + 1), k) == (if ge.0@ == k {
                        Some(ge.1)
                    } else {
                        reading_of(all.take(j as int), k)
                    }));
                    if ge.0@ != id@ {
                        assert(reading_of(self.entries@, k) == (if ge.0@ == k {
                            Some(ge.1)
                        } else {
                            reading_of(before, k)
                        }));
                    }
                }
            }
            j = j + 1;
        }
        proof {
            assert(all.take(j as int) =~= all);
        }
        found
    }

    /// Forgets the readings of accounts that are no longer listed.
    pub fn retain_listed(&mut self, ids: &Vec<String>)
        ensures
            forall|k: Seq<char>|
                #[trigger] final(self).reading(k) == if listed(ids@, k) {
                    old(self).reading(k)
                } else {
                    None
                },
    {
        let ghost all = self.entries@;
        let mut rest: Vec<(String, UsageView)> = Vec::new();
        std::mem::swap(&mut rest, &mut self.entries);
        proof {
            assert(rest@.len() == rest.len());
        }
        let mut j: usize = 0;
        while rest.len() > 0
            invariant
                j + rest@.len() == all.len(),
                all.len() <= usize::MAX,
                rest@ == all.skip(j as int),
                forall|k: Seq<char>|
                    #[trigger] reading_of(self.entries@, k) == if listed(ids@, k) {
                        reading_of(all.take(j as int), k)
                    } else {
                        None
                    },
            decreases rest.len(),
        {
            let e = rest.remove(0);
            let ghost ge = e;
            proof {
                assert(all.take(j + 1).drop_last() =~= all.take(j as int));
                assert(all.take(j + 1).last() == e);
                assert(rest@ =~= all.skip(j + 1));
            }
            let ghost before = self.entries@;
            if contains_text(ids, e.0.as_str()) {
                self.entries.push(e);
                proof {
                    assert(self.entries@.drop_last() =~= before);
                }
            }
            proof {
                assert forall|k: Seq<char>|
                    #[trigger] reading_of(self.entries@, k) == (if listed(ids@, k) {
                        reading_of(all.take(j + 1), k)
                    } else {
                        None
                    }) by {
                    assert(reading_of(all.take(j + 1), k) == (if ge.0@ == k {
                        Some(ge.1)
                    } else {
                        reading_of(all.take(j as int), k)
                    }));
                    if listed(ids@, ge.0@) {
                        assert(reading_of(self.entries@, k) == (if ge.0@ == k {
                            Some(ge.1)
                        } else {
                            reading_of(before, k)
                        }));
                    }
                }
            }
            j = j + 1;
        }
        proof {
            assert(all.take(j as int) =~= all);
        }
    }

    /// Takes the result of reading `id` at `now`, unless `id` is no longer
    /// among the listed `ids`: a removed account gets no reading back.
    pub fn record(&mut self, ids: &Vec<String>, id: &str, result: Result<Usage, String>, now: Instant)
        ensures
            !listed(ids@, id@) ==> forall|k: Seq<char>|
                #[trigger] final(self).reading(k) == old(self).reading(k),
            listed(ids@, id@) ==> {
                &&& forall|k: Seq<char>|
                    k != id@ ==> #[trigger] final(self).reading(k) == old(self).reading(k)
                &&& final(self).reading(id@) matches Some(v) && recorded(
                    old(self).reading(id@),
                    v,
                    result,
                    now,
                )
            },
    {
        if !contains_text(ids, id) {
            return;
        }
        let ghost before = self.entries@;
        let mut view = match self.take(id) {
            Some(v) => v,
            None => UsageView::new(),
        };
        view.record(result, now);
        let ghost taken = self.entries@;
        let ghost after_take = *self;
        self.entries.push((String::from_str(id), view));
        proof {
            assert(self.entries@.drop_last() =~= taken);
            assert forall|k: Seq<char>| k != id@ implies #[trigger] self.reading(k) == old(
                self,
            ).reading(k) by {
                assert(self.reading(k) == reading_of(taken, k));
                assert(after_take.reading(k) == old(self).reading(k));
            }
        }
    }

    /// Marks every listed account as interrupted, keeping what each had.
    pub fn interrupt(&mut self, ids: &Vec<String>)
        ensures
            forall|k: Seq<char>|
                !listed(ids@, k) ==> #[trigger] final(self).reading(k) == old(self).reading(k),
            forall|k: Seq<char>|
                listed(ids@, k) ==> (#[trigger] final(self).reading(k) matches Some(v)
                    && marked_interrupted(old(self).reading(k), v)),
    {
        let ghost start = *self;
        let mut i: usize = 0;
        while i < ids.len()
            invariant
                i <= ids@.len(),
                forall|k: Seq<char>|
                    !listed(ids@.take(i as int), k) ==> #[trigger] self.reading(k) == start.reading(
                        k,
                    ),
                forall|k: Seq<char>|
                    listed(ids@.take(i as int), k) ==> (#[trigger] self.reading(k) matches Some(v)
                        && marked_interrupted(start.reading(k), v)),
            decreases ids.len() - i,
        {
            let id = ids[i].as_str();
            let ghost mid = *self;
            let mut view = match self.take(id) {
                Some(v) => v,
                None => UsageView::new(),
            };
            view.interrupted();
            let ghost taken = self.entries@;
            let ghost after_take = *self;
            self.entries.push((String::from_str(id), view));
            proof {
                assert(self.entries@.drop_last() =~= taken);
                assert forall|k: Seq<char>| k != id@ implies #[trigger] self.reading(k)
                    == mid.reading(k) by {
                    assert(self.reading(k) == reading_of(taken, k));
                    assert(after_take.reading(k) == mid.reading(k));
                }
                assert(self.reading(id@) == Some(view));
                assert forall|k: Seq<char>| #[trigger] listed(ids@.take(i + 1), k) <==> (listed(
                    ids@.take(i as int),
                    k,
                ) || k == id@) by {
                    if listed(ids@.take(i + 1), k) {
                        let w = choose|w: int| 0 <= w < i + 1 && (#[trigger] ids@.take(i + 1)[w])@ == k;
                        if w < i {
                            assert(ids@.take(i as int)[w] == ids@.take(i + 1)[w]);
                        }
                    }
                    if listed(ids@.take(i as int), k) {
                        let w = choose|w: int| 0 <= w < i && (#[trigger] ids@.take(i as int)[w])@ == k;
                        assert(ids@.take(i + 1)[w] == ids@.take(i as int)[w]);
                    }
                    if k == id@ {
                        assert(ids@.take(i + 1)[i as int] == ids@[i as int]);
                    }
                }
            }
            i = i + 1;
        }
        proof {
            assert(ids@.take(i as int) =~= ids@);
        }
    }
}

/// One line of the status menu. Lines that depend on the machine's time
/// zone or on decimal rendering of the reported percentage name what they
/// show, and the menu renders them.
pub enum Line {
    /// `"<label>: <used, one decimal>% użyte"` for this window.
    Used(Window),
    /// The window's reset label at the time of rendering.
    Reset(Window),
    /// `"Odczyt <local HH:MM> · co minutę"` for this reading time.
    Checked(Instant),
    Text(String),
}

/// The status shown in the menu: a heading and its lines.
pub struct Status {
    pub account: String,
    pub lines: Vec<Line>,
}

/// A line as contracts speak of it.
pub enum LineSpec {
    Used(Window),
    Reset(Window),
    Checked(Instant),
    Text(Seq<char>),
}

pub open spec fn line_spec(l: Line) -> LineSpec {
    match l {
        Line::Used(w) => LineSpec::Used(w),
        Line::Reset(w) => LineSpec::Reset(w),
        Line::Checked(t) => LineSpec::Checked(t),
        Line::Text(s) => LineSpec::Text(s@),
    }
}

pub open spec fn line_specs(ls: Seq<Line>) -> Seq<LineSpec> {
    ls.map_values(|l: Line| line_spec(l))
}

/// Each reported window: its usage, then its reset.
pub open spec fn window_lines(ws: Seq<Window>) -> Seq<LineSpec>
    decreases ws.len(),
{
    if ws.len() == 0 {
        Seq::empty()
    } else {
        window_lines(ws.drop_last()) + seq![LineSpec::Used(ws.last()), LineSpec::Reset(ws.last())]
    }
}

proof fn lemma_window_lines(ws: Seq<Window>)
    ensures
        window_lines(ws).len() == 2 * ws.len(),
        forall|k: int|
            0 <= k < ws.len() ==> window_lines(ws)[2 * k] == LineSpec::Used(ws[k])
                && window_lines(ws)[2 * k + 1] == LineSpec::Reset(ws[k]),
    decreases ws.len(),
{
    if ws.len() > 0 {
        lemma_window_lines(ws.drop_last());
        assert forall|k: int| 0 <= k < ws.len() implies window_lines(ws)[2 * k]
            == LineSpec::Used(ws[k]) && window_lines(ws)[2 * k + 1] == LineSpec::Reset(ws[k]) by {
            if k < ws.len() - 1 {
                assert(ws.drop_last()[k] == ws[k]);
            }
        }
    }
}

/// Every window the service reported is in the menu, in order: the lines
/// of a reading begin with the usage line and then the reset line of its
/// first window (primary, when reported), then of the next one.
pub proof fn law_every_window_listed(v: UsageView, loading: bool)
    requires
        v.data is Some,
    ensures
        ({
            let ws = limit_windows(v.data->0.rate_limit);
            let ls = account_lines(Some(v), loading);
            &&& ls.len() >= 2 * ws.len()
            &&& forall|k: int|
                0 <= k < ws.len() ==> ls[2 * k] == LineSpec::Used(ws[k]) && ls[2 * k + 1]
                    == LineSpec::Reset(ws[k])
        }),
{
    let ws = limit_windows(v.data->0.rate_limit);
    lemma_window_lines(ws);
    let ls = account_lines(Some(v), loading);
    let dl = data_lines(v.data, loading);
    assert forall|k: int| 0 <= k < ws.len() implies ls[2 * k] == LineSpec::Used(ws[k]) && ls[2 * k
        + 1] == LineSpec::Reset(ws[k]) by {
        assert(dl[2 * k] == window_lines(ws)[2 * k]);
        assert(dl[2 * k + 1] == window_lines(ws)[2 * k + 1]);
    }
}

/// The available reset count: from the credit list when it was read,
/// otherwise from the usage report.
pub open spec fn reset_count(data: Usage) -> Option<u32> {
    match data.reset_details {
        Some(d) => Some(d.available_count),
        None => match data.rate_limit_reset_credits {
            Some(c) => Some(c.available_count),
            None => None,
        },
    }
}

/// The available reset count of a reading.
pub fn reset_count_of(data: &Usage) -> (r: Option<u32>)
    ensures
        r == reset_count(*data),
{
    match &data.reset_details {
        Some(c) => Some(c.available_count),
        None => match &data.rate_limit_reset_credits {
            Some(c) => Some(c.available_count),
            None => None,
        },
    }
}

pub open spec fn data_lines(data: Option<Usage>, loading: bool) -> Seq<LineSpec> {
    match data {
        Some(d) => window_lines(d.reported()) + (if d.reported().len() == 0 {
            seq![LineSpec::Text("Brak udostępnionych okien limitów"@)]
        } else {
            Seq::empty()
        }) + (match reset_count(d) {
            Some(n) => seq![LineSpec::Text("Dostępne restarty: "@ + crate::text::decimal(n as nat))],
            None => Seq::empty(),
        }),
        None => seq![
            LineSpec::Text(if loading {
                "Pobieranie limitów…"@
            } else {
                "Limity niedostępne"@
            }),
        ],
    }
}

/// The lines shown for a selected account.
pub open spec fn account_lines(view: Option<UsageView>, loading: bool) -> Seq<LineSpec> {
    data_lines(
        match view {
            Some(v) => v.data,
            None => None,
        },
        loading,
    ) + (if view is Some && view->0.error is Some {
        seq![LineSpec::Text("Błąd odczytu · dane nieaktualne"@)]
    } else {
        Seq::empty()
    }) + (if loading {
        seq![LineSpec::Text("Odświeżanie…"@)]
    } else {
        Seq::empty()
    }) + (if view is Some && view->0.checked is Some {
        seq![LineSpec::Checked(view->0.checked->0)]
    } else {
        Seq::empty()
    })
}

fn text(s: &str) -> (r: Line)
    ensures
        line_spec(r) == LineSpec::Text(s@),
{
    Line::Text(String::from_str(s))
}

/// The status for the selected account (none selected: a prompt to choose
/// one). Only windows the service reported are listed; a failed reading is
/// marked stale rather than hidden.
pub fn status_for(account: Option<&Account>, view: Option<&UsageView>, loading: bool) -> (r: Status)
    ensures
        match account {
            None => r.account@ == "Nie wybrano konta"@ && line_specs(r.lines@) == seq![
                LineSpec::Text("Wybierz konto w oknie aplikacji"@),
            ],
            Some(a) => r.account@ == a.email@ + " · "@ + a.plan@ && line_specs(r.lines@)
                == account_lines(
                match view {
                    Some(v) => Some(*v),
                    None => None,
                },
                loading,
            ),
        },
{
    let account = match account {
        None => {
            let mut lines: Vec<Line> = Vec::new();
            lines.push(text("Wybierz konto w oknie aplikacji"));
            assert(line_specs(lines@) =~= seq![LineSpec::Text("Wybierz konto w oknie aplikacji"@)]);
            return Status { account: String::from_str("Nie wybrano konta"), lines };
        },
        Some(a) => a,
    };
    let ghost v = match view {
        Some(v) => Some(*v),
        None => None,
    };
    let mut lines: Vec<Line> = Vec::new();
    let data = match view {
        Some(v) => match &v.data {
            Some(d) => Some(d),
            None => None,
        },
        None => None,
    };
    match data {
        Some(d) => {
            let ws = d.windows();
            let mut i: usize = 0;
            while i < ws.len()
                invariant
                    i <= ws@.len(),
                    line_specs(lines@) == window_lines(ws@.take(i as int)),
                decreases ws.len() - i,
            {
                let ghost before = lines@;
                lines.push(Line::Used(ws[i]));
                lines.push(Line::Reset(ws[i]));
                assert(ws@.take(i + 1).drop_last() =~= ws@.take(i as int));
                assert(line_specs(lines@) =~= line_specs(before) + seq![
                    LineSpec::Used(ws@[i as int]),
                    LineSpec::Reset(ws@[i as int]),
                ]);
                i = i + 1;
            }
            assert(ws@.take(ws@.len() as int) =~= ws@);
            let ghost after_windows = lines@;
            if ws.len() == 0 {
                lines.push(text("Brak udostępnionych okien limitów"));
            }
            let ghost after_empty = lines@;
            let count = match &d.reset_details {
                Some(c) => Some(c.available_count),
                None => match &d.rate_limit_reset_credits {
                    Some(c) => Some(c.available_count),
                    None => None,
                },
            };
            if let Some(n) = count {
                let mut t = chars_of("Dostępne restarty: ");
                push_decimal(&mut t, n as u64);
                lines.push(Line::Text(string_of(t.as_slice())));
            }
            assert(line_specs(lines@) =~= data_lines(Some(*d), loading));
        },
        None => {
            lines.push(text(
                if loading {
                    "Pobieranie limitów…"
                } else {
                    "Limity niedostępne"
                },
            ));
            assert(line_specs(lines@) =~= data_lines(None, loading));
        },
    }
    let ghost after_data = lines@;
    let stale = match view {
        Some(v) => v.error.is_some(),
        None => false,
    };
    if stale {
        lines.push(text("Błąd odczytu · dane nieaktualne"));
    }
    if loading {
        lines.push(text("Odświeżanie…"));
    }
    if let Some(v) = view {
        if let Some(at) = v.checked {
            lines.push(Line::Checked(at));
        }
    }
    assert(line_specs(lines@) =~= account_lines(v, loading));
    let mut heading: Vec<char> = Vec::new();
    push_str(&mut heading, account.email.as_str());
    push_str(&mut heading, " · ");
    push_str(&mut heading, account.plan.as_str());
    Status { account: string_of(heading.as_slice()), lines }
}

} // verus!
