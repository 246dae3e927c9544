//! Request-side types: the query parameter shapes the read paths compute
//! their cache keys from, the stats the catalog reports, and the error
//! taxonomy every handler maps failures into.

use vstd::prelude::*;

use crate::refresh::time_until_refresh;
use crate::strutil::seq_contains_str;

verus! {

/// The one error surface callers see: the store is not initialised yet, a
/// query failed, or the request itself was unusable.
#[derive(Clone, Debug)]
pub enum AppError {
    UninitalizedDatabase(String),
    BadSqlQuery(String),
    BadRequest(String),
}

/// Folds any failed query result into `AppError::BadSqlQuery`, naming the
/// query that failed.
pub trait AppErrorHandling<T>: Sized {
    spec fn spec_is_ok(&self) -> bool;

    spec fn spec_ok_value(&self) -> T;

    fn bad_sql(self, name: &'static str) -> (r: Result<T, AppError>)
        ensures
            self.spec_is_ok() ==> (match r {
                Ok(v) => v == self.spec_ok_value(),
                Err(_) => false,
            }),
            !self.spec_is_ok() ==> (match r {
                Err(AppError::BadSqlQuery(m)) => m@ == name@ + " Query did not run successfully"@,
                _ => false,
            }),
    ;
}

impl<T, E> AppErrorHandling<T> for Result<T, E> {
    open spec fn spec_is_ok(&self) -> bool {
        self is Ok
    }

    open spec fn spec_ok_value(&self) -> T {
        self->Ok_0
    }

    fn bad_sql(self, name: &'static str) -> (r: Result<T, AppError>) {
        match self {
            Ok(v) => Ok(v),
            Err(_) => {
                let mut m = String::from_str(name);
                m.append(" Query did not run successfully");
                Err(AppError::BadSqlQuery(m))
            },
        }
    }
}

/// What the item stats endpoint reports.
#[derive(Clone, Debug)]
pub struct ItemStats {
    pub items_count: i64,
    pub time_till_items_refresh_secs: u64,
}

/// What the task stats endpoint reports.
#[derive(Clone, Debug)]
pub struct TaskStats {
    pub tasks_completed_count: usize,
    pub tasks_count: i64,
    pub kappa_completed_count: usize,
    pub kappa_required_count: usize,
    pub lightkeeper_completed_count: usize,
    pub lightkeeper_required_count: usize,
    pub time_till_tasks_refresh_secs: u64,
}

/// The normalized parameter set of an item listing request.
#[derive(Clone, Debug)]
pub struct ItemQueryParams {
    pub search: String,
    pub sort_asc: bool,
    pub sort_by: String,
    pub item_type: String,
    pub limit: u32,
    pub offset: u32,
    pub save: bool,
}

/// The single-item price history request.
#[derive(Clone, Debug)]
pub struct ItemHistoryQueryParams {
    pub item_id: Option<String>,
}

/// A request for specific records by id.
#[derive(Clone, Debug)]
pub struct IdsQueryParams {
    pub ids: Option<Vec<String>>,
}

/// The normalized parameter set of a task listing request.
#[derive(Clone, Debug)]
pub struct TaskQueryParams {
    pub search: String,
    pub is_kappa: bool,
    pub is_lightkeeper: bool,
    pub obj_type: String,
    pub trader: String,
    pub player_lvl: u32,
    pub limit: u32,
    pub offset: u32,
    pub include_completed: bool,
    pub save: bool,
}


/// The normalized parameter set of an ammunition listing request.  The
/// minimum initial speed is a fractional column; it travels as its
/// IEEE-754 bits and the engine never reads the number itself.
#[derive(Clone, Debug)]
pub struct AmmoQueryParams {
    pub search: String,
    pub sort_by: String,
    pub sort_asc: bool,
    pub damage: i32,
    pub penetration_power: i32,
    pub initial_speed_bits: u32,
    pub ammo_type: String,
    pub limit: u32,
    pub offset: u32,
    pub save: bool,
}

/// The default for flags that are on unless the request turns them off.
pub fn default_true() -> (r: bool)
    ensures
        r == true,
{
    true
}

/// The player level assumed when a request names none: high enough to
/// filter nothing out.
pub fn default_player_lvl() -> (r: u32)
    ensures
        r == 99,
{
    99
}

/// The page size used when a request names none.
pub fn default_limit() -> (r: u32)
    ensures
        r == 30,
{
    30
}

/// How many of `ids` occur in `completed`.
pub open spec fn spec_count_completed(ids: Seq<String>, completed: Seq<String>) -> int {
    ids.filter(|s: String| seq_contains_str(completed, s@)).len() as int
}

/// Counts the ids that the completed list contains.
pub fn count_completed(ids: &Vec<String>, completed: &Vec<String>) -> (r: usize)
    ensures
        r == spec_count_completed(ids@, completed@),
{
    let ghost pred = |s: String| seq_contains_str(completed@, s@);
    let mut count: usize = 0;
    let mut i: usize = 0;
    proof {
        assert(ids@.take(0).filter(pred) =~= Seq::<String>::empty());
    }
    while i < ids.len()
        invariant
            i <= ids@.len(),
            pred == (|s: String| seq_contains_str(completed@, s@)),
            count == ids@.take(i as int).filter(pred).len(),
            count <= i,
        decreases ids@.len() - i,
    {
        let hit = crate::strutil::vec_contains_string(completed, &ids[i]);
        proof {
            assert(ids@.take(i + 1).drop_last() =~= ids@.take(i as int));
            assert(ids@.take(i + 1).last() == ids@[i as int]);
            reveal(Seq::filter);
        }
        if hit {
            count = count + 1;
        }
        i = i + 1;
    }
    proof {
        assert(ids@.take(ids@.len() as int) =~= ids@);
    }
    count
}

/// Assembles the item stats report from the item count and the published
/// refresh timer.
pub fn item_stats(items_count: i64, next_refresh_at: u64, now: u64) -> (r: ItemStats)
    ensures
        r.items_count == items_count,
        r.time_till_items_refresh_secs == if next_refresh_at >= now {
            next_refresh_at - now
        } else {
            0
        },
{
    ItemStats { items_count, time_till_items_refresh_secs: time_until_refresh(next_refresh_at, now) }
}

/// Assembles the task stats report: how much of the catalog, and of its
/// kappa- and lightkeeper-required subsets, the user has completed, plus
/// the refresh countdown.
pub fn task_stats(
    tasks_count: i64,
    completed: &Vec<String>,
    kappa_ids: &Vec<String>,
    lightkeeper_ids: &Vec<String>,
    next_refresh_at: u64,
    now: u64,
) -> (r: TaskStats)
    ensures
        r.tasks_completed_count == completed@.len(),
        r.tasks_count == tasks_count,
        r.kappa_completed_count == spec_count_completed(kappa_ids@, completed@),
        r.kappa_required_count == kappa_ids@.len(),
        r.lightkeeper_completed_count == spec_count_completed(lightkeeper_ids@, completed@),
        r.lightkeeper_required_count == lightkeeper_ids@.len(),
        r.time_till_tasks_refresh_secs == if next_refresh_at >= now {
            next_refresh_at - now
        } else {
            0
        },
{
    TaskStats {
        tasks_completed_count: completed.len(),
        tasks_count,
        kappa_completed_count: count_completed(kappa_ids, completed),
        kappa_required_count: kappa_ids.len(),
        lightkeeper_completed_count: count_completed(lightkeeper_ids, completed),
        lightkeeper_required_count: lightkeeper_ids.len(),
        time_till_tasks_refresh_secs: time_until_refresh(next_refresh_at, now),
    }
}

pub open spec fn spec_count_present(c: Option<i64>) -> bool {
    match c {
        Some(n) => n != 0,
        None => false,
    }
}

/// Whether the store is ready to serve: every dataset count was readable
/// and non-zero.  `None` stands for a count query that failed.
pub fn health(items_count: Option<i64>, tasks_count: Option<i64>, ammo_count: Option<i64>) -> (r:
    Result<String, AppError>)
    ensures
        r is Ok <==> spec_count_present(items_count) && spec_count_present(tasks_count)
            && spec_count_present(ammo_count),
        r is Ok ==> r->Ok_0@ == "Status Ok"@,
        r is Err ==> (match r {
            Err(AppError::UninitalizedDatabase(m)) => m@
                == "The Database has not yet been initalized"@,
            _ => false,
        }),
{
    let ok = match items_count {
        Some(n) => n != 0,
        None => false,
    } && match tasks_count {
        Some(n) => n != 0,
        None => false,
    } && match ammo_count {
        Some(n) => n != 0,
        None => false,
    };
    if ok {
        Ok(String::from_str("Status Ok"))
    } else {
        Err(AppError::UninitalizedDatabase(String::from_str(
            "The Database has not yet been initalized",
        )))
    }
}

/// Replaces an empty selection with the catch-all word the persisted
/// preference rows use.
pub fn normalize_or_any(s: String) -> (r: String)
    ensures
        r@ == if s@.len() == 0 {
            "any"@
        } else {
            s@
        },
{
    if s.as_str().is_empty() {
        String::from_str("any")
    } else {
        s
    }
}

/// Replaces an empty sort selection with the item listing's default sort
/// column.
pub fn normalize_sort_by(s: String) -> (r: String)
    ensures
        r@ == if s@.len() == 0 {
            "base_price"@
        } else {
            s@
        },
{
    if s.as_str().is_empty() {
        String::from_str("base_price")
    } else {
        s
    }
}

} // verus!
