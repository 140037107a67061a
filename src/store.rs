//! The observation / forecast store: schema lifecycle over an SQLite
//! connection, the keys of a forecast chain, and range selection.

use vstd::prelude::*;
use vstd::string::StringExecFns;
use crate::calendar::SimpleDate;
use crate::models::{observation_id, point_id};

verus! {

#[verifier::external_type_specification]
#[verifier::external_body]
pub struct ExConnection(rusqlite::Connection);

#[verifier::external_type_specification]
#[verifier::external_body]
pub struct ExSqlError(rusqlite::Error);

/// Failures of the store.
#[derive(Debug)]
pub enum DbError {
    /// The storage engine failed (I/O, SQL or a uniqueness constraint).
    Storage(rusqlite::Error),
    /// The stored schema version is one this library cannot migrate from.
    UnsupportedVersion(i64),
    /// A point query found no row.
    NotFound,
    /// A range whose start is after its end, or that names an hour that does
    /// not exist.
    InvalidRange,
}

/// The schema version that this library writes.
pub const SCHEMA_VERSION: i64 = 1;

/// Creates the observation table.
pub const CREATE_WEATHER_TABLE: &'static str = "CREATE TABLE IF NOT EXISTS weather (id TEXT PRIMARY KEY, year INTEGER, day INTEGER, hour INTEGER, icon TEXT, precip_intensity REAL, precip_probability REAL, temp REAL, wind_speed REAL, wind_gust REAL, humidity REAL, precip_type TEXT)";

/// Makes `(year, day, hour)` unique among observations.
pub const CREATE_WEATHER_UNIQUE_INDEX: &'static str = "CREATE UNIQUE INDEX IF NOT EXISTS year_day_hour ON weather (year, day, hour)";

/// Creates the forecast table.
pub const CREATE_PREDICTION_TABLE: &'static str = "CREATE TABLE IF NOT EXISTS prediction (id TEXT PRIMARY KEY, reading_year INTEGER, reading_day INTEGER, reading_hour INTEGER, prediction_year INTEGER, prediction_day INTEGER, prediction_hour INTEGER, hour_diff INTEGER, icon TEXT, precip_intensity REAL, precip_probability REAL, temp REAL, wind_speed REAL, wind_gust REAL, humidity REAL, precip_type TEXT)";

/// Makes the six-field natural key unique among forecasts.
pub const CREATE_PREDICTION_UNIQUE_INDEX: &'static str = "CREATE UNIQUE INDEX IF NOT EXISTS year_day_hour_diff ON prediction (reading_year, reading_day, reading_hour, prediction_year, prediction_day, prediction_hour)";

/// One step of a schema migration.
#[derive(Clone, Copy, Debug, PartialEq, Eq, Structural)]
pub enum SchemaStep {
    CreateWeatherTable,
    CreateWeatherIndex,
    CreatePredictionTable,
    CreatePredictionIndex,
    SetVersion(i64),
}

/// The steps that bring a store at schema `version` up to date, or `None`
/// when no migration from `version` exists.
pub open spec fn plan_for(version: int) -> Option<Seq<SchemaStep>> {
    if version == 0 {
        Some(
            seq![
                SchemaStep::CreateWeatherTable,
                SchemaStep::CreateWeatherIndex,
                SchemaStep::CreatePredictionTable,
                SchemaStep::CreatePredictionIndex,
                SchemaStep::SetVersion(SCHEMA_VERSION),
            ],
        )
    } else if version == SCHEMA_VERSION {
        Some(Seq::empty())
    } else {
        None
    }
}

/// The schema version after running `steps` on a store at `version`.
pub open spec fn version_after(version: int, steps: Seq<SchemaStep>) -> int
    decreases steps.len(),
{
    if steps.len() == 0 {
        version
    } else {
        match steps.last() {
            SchemaStep::SetVersion(v) => v as int,
            _ => version_after(version, steps.drop_last()),
        }
    }
}

/// Initializing twice is initializing once: a migration that exists leaves
/// the store at a version whose migration does nothing, it runs no step
/// twice, and only versions 0 and 1 have a migration at all.
pub proof fn lemma_initialize_idempotent(version: int)
    ensures
        plan_for(version) is Some <==> (version == 0 || version == 1),
        plan_for(version) is Some ==> plan_for(version_after(version, plan_for(version)->0))
            == Some(Seq::<SchemaStep>::empty()),
        plan_for(version) is Some ==> plan_for(version)->0.no_duplicates(),
{
    if version == 0 {
        let p = plan_for(version)->0;
        assert(p.last() == SchemaStep::SetVersion(SCHEMA_VERSION));
    }
}

/// The migration that brings a store at schema `version` up to date.
pub fn schema_plan(version: i64) -> (r: Result<Vec<SchemaStep>, DbError>)
    ensures
        match r {
            Ok(steps) => plan_for(version as int) == Some(steps@),
            Err(e) => plan_for(version as int) is None && e == DbError::UnsupportedVersion(version),
        },
{
    if version == 0 {
        let steps = vec![
            SchemaStep::CreateWeatherTable,
            SchemaStep::CreateWeatherIndex,
            SchemaStep::CreatePredictionTable,
            SchemaStep::CreatePredictionIndex,
            SchemaStep::SetVersion(SCHEMA_VERSION),
        ];
        assert(steps@ =~= plan_for(0)->0);
        Ok(steps)
    } else if version == SCHEMA_VERSION {
        let steps: Vec<SchemaStep> = Vec::new();
        assert(steps@ =~= Seq::<SchemaStep>::empty());
        Ok(steps)
    } else {
        Err(DbError::UnsupportedVersion(version))
    }
}

/// Relies on rusqlite's `Connection::open`: opens (or creates) the database
/// file at `path`.
#[verifier::external_body]
fn open_connection(path: &str) -> (r: Result<rusqlite::Connection, rusqlite::Error>) {
    rusqlite::Connection::open(path)
}

/// Relies on rusqlite's `Connection::pragma_query_value`: reads the
/// database's `user_version`.
#[verifier::external_body]
fn read_user_version(conn: &rusqlite::Connection) -> (r: Result<i64, rusqlite::Error>) {
    conn.pragma_query_value(None, "user_version", |row| row.get(0))
}

/// Relies on rusqlite's `Connection::pragma_update`: writes the database's
/// `user_version`.
#[verifier::external_body]
fn write_user_version(conn: &rusqlite::Connection, version: i64) -> (r: Result<(), rusqlite::Error>) {
    conn.pragma_update(None, "user_version", version)
}

/// Relies on rusqlite's `Connection::execute_batch`: runs SQL statements.
#[verifier::external_body]
fn execute_sql(conn: &rusqlite::Connection, sql: &str) -> (r: Result<(), rusqlite::Error>) {
    conn.execute_batch(sql)
}

impl SchemaStep {
    /// The SQL statement of a table or index step; `None` for a version step.
    pub fn sql(&self) -> (r: Option<&'static str>)
        ensures
            *self == SchemaStep::CreateWeatherTable ==> r == Some(CREATE_WEATHER_TABLE),
            *self == SchemaStep::CreateWeatherIndex ==> r == Some(CREATE_WEATHER_UNIQUE_INDEX),
            *self == SchemaStep::CreatePredictionTable ==> r == Some(CREATE_PREDICTION_TABLE),
            *self == SchemaStep::CreatePredictionIndex ==> r == Some(CREATE_PREDICTION_UNIQUE_INDEX),
            self is SetVersion ==> r is None,
    {
        match self {
            SchemaStep::CreateWeatherTable => Some(CREATE_WEATHER_TABLE),
            SchemaStep::CreateWeatherIndex => Some(CREATE_WEATHER_UNIQUE_INDEX),
            SchemaStep::CreatePredictionTable => Some(CREATE_PREDICTION_TABLE),
            SchemaStep::CreatePredictionIndex => Some(CREATE_PREDICTION_UNIQUE_INDEX),
            SchemaStep::SetVersion(_) => None,
        }
    }
}

/// Owner of the one connection to the store's database.
pub struct DbManager {
    /// The open connection; reads and writes of rows, whose weather
    /// magnitudes are floating point, use it directly.
    pub conn: rusqlite::Connection,
}

impl DbManager {
    /// Opens the store kept in the database file `db_file`.
    pub fn new(db_file: String) -> (r: Result<DbManager, DbError>)
        ensures
            r is Err ==> r->Err_0 is Storage,
    {
        match open_connection(db_file.as_str()) {
            Ok(conn) => Ok(DbManager { conn }),
            Err(e) => Err(DbError::Storage(e)),
        }
    }

    /// Runs one migration step.
    fn run_step(&self, step: SchemaStep) -> (r: Result<(), DbError>)
        ensures
            r is Err ==> r->Err_0 is Storage,
    {
        let done = match step.sql() {
            Some(sql) => execute_sql(&self.conn, sql),
            None => match step {
                SchemaStep::SetVersion(v) => write_user_version(&self.conn, v),
                _ => {
                    proof {
                        assert(false);
                    }
                    Ok(())
                },
            },
        };
        match done {
            Ok(()) => Ok(()),
            Err(e) => Err(DbError::Storage(e)),
        }
    }

    /// Brings the schema up to date; must be called before the store is used.
    ///
    /// A store at version 0 gets both tables and both unique indexes and is
    /// set to version 1; a store at version 1 is left as it is. Any other
    /// stored version is refused with `UnsupportedVersion` before anything is
    /// written.
    pub fn init(&mut self) -> (r: Result<(), DbError>)
        ensures
            r matches Err(DbError::UnsupportedVersion(v)) ==> plan_for(v as int) is None,
            r is Err ==> (r->Err_0 is Storage || r->Err_0 is UnsupportedVersion),
    {
        let version = match read_user_version(&self.conn) {
            Ok(v) => v,
            Err(e) => return Err(DbError::Storage(e)),
        };
        let steps = match schema_plan(version) {
            Ok(steps) => steps,
            Err(e) => return Err(e),
        };
        let mut i: usize = 0;
        while i < steps.len()
            decreases steps.len() - i,
        {
            match self.run_step(steps[i]) {
                Ok(()) => {},
                Err(e) => return Err(e),
            }
            i = i + 1;
        }
        Ok(())
    }
}

/// The id of a forecast made at `origin` for `target`:
/// the target's id, a dash, then the origin's id.
pub open spec fn forecast_id(target: SimpleDate, origin: SimpleDate) -> Seq<char> {
    point_id(target.year as nat, target.day as nat, target.hour as nat) + seq!['-'] + point_id(
        origin.year as nat,
        origin.day as nat,
        origin.hour as nat,
    )
}

/// The key of one forecast row.
pub struct ForecastKey {
    pub id: String,
    /// Hour at which the forecast was made.
    pub reading: SimpleDate,
    /// Hour that the forecast is for.
    pub prediction: SimpleDate,
    /// Hours from `reading` to `prediction`, by position in the chain.
    pub hour_diff: u8,
}

/// The keys of a forecast chain made at `origin`: the forecast at position
/// `k` (one based) of `targets` gets `hour_diff` = `k`.
pub fn plan_forecasts(origin: SimpleDate, targets: &Vec<SimpleDate>) -> (r: Vec<ForecastKey>)
    requires
        targets.len() <= u8::MAX,
    ensures
        r.len() == targets.len(),
        forall|i: int| 0 <= i < r.len() ==> {
            &&& (#[trigger] r[i]).reading == origin
            &&& r[i].prediction == targets[i]
            &&& r[i].hour_diff == i + 1
            &&& r[i].id@ == forecast_id(targets[i], origin)
        },
{
    let origin_id = observation_id(origin.year, origin.day, origin.hour);
    let mut r: Vec<ForecastKey> = Vec::new();
    let mut i: usize = 0;
    while i < targets.len()
        invariant
            targets.len() <= u8::MAX,
            i <= targets.len(),
            r.len() == i,
            origin_id@ == point_id(origin.year as nat, origin.day as nat, origin.hour as nat),
            forall|k: int| 0 <= k < r.len() ==> {
                &&& (#[trigger] r[k]).reading == origin
                &&& r[k].prediction == targets[k]
                &&& r[k].hour_diff == k + 1
                &&& r[k].id@ == forecast_id(targets[k], origin)
            },
        decreases targets.len() - i,
    {
        let target = targets[i];
        let id = observation_id(target.year, target.day, target.hour).concat("-").concat(
            origin_id.as_str(),
        );
        proof {
            reveal_strlit("-");
            assert(id@ =~= forecast_id(target, origin));
        }
        r.push(ForecastKey { id, reading: origin, prediction: target, hour_diff: (i + 1) as u8 });
        i = i + 1;
    }
    r
}

/// Order of an ordered read, by observation id.
#[derive(Clone, Copy, Debug, PartialEq, Eq, Structural)]
pub enum Direction {
    Ascending,
    Descending,
}

impl Direction {
    /// The SQL keyword for the order.
    pub fn keyword(&self) -> (r: &'static str)
        ensures
            r@ == (if *self == Direction::Ascending { "ASC"@ } else { "DESC"@ }),
    {
        match self {
            Direction::Ascending => "ASC",
            Direction::Descending => "DESC",
        }
    }
}

/// Whether `d` lies in the inclusive range `[start, end]`.
pub open spec fn within(d: SimpleDate, start: SimpleDate, end: SimpleDate) -> bool {
    start.hour_number() <= d.hour_number() <= end.hour_number()
}

/// The positions, in ascending order, of the points of `dates` that lie in
/// the inclusive range `[start, end]`; `InvalidRange` when either bound does
/// not exist or `start` is after `end`.
pub fn select_range(dates: &Vec<SimpleDate>, start: SimpleDate, end: SimpleDate) -> (r: Result<
    Vec<usize>,
    DbError,
>)
    requires
        forall|i: int| 0 <= i < dates.len() ==> #[trigger] dates[i].wf(),
    ensures
        r is Err <==> !(start.wf() && end.wf() && start.hour_number() <= end.hour_number()),
        r is Err ==> r->Err_0 is InvalidRange,
        r matches Ok(picked) ==> {
            &&& forall|i: int, j: int| 0 <= i < j < picked.len() ==> picked[i] < picked[j]
            &&& forall|i: int| 0 <= i < picked.len() ==> #[trigger] picked[i] < dates.len()
            &&& forall|k: int| 0 <= k < dates.len() ==> (within(#[trigger] dates[k], start, end) <==> picked@.contains(k as usize))
        },
{
    if !start.is_valid() || !end.is_valid() {
        return Err(DbError::InvalidRange);
    }
    let lo = start.timestamp();
    let hi = end.timestamp();
    if lo > hi {
        return Err(DbError::InvalidRange);
    }
    let mut picked: Vec<usize> = Vec::new();
    let mut k: usize = 0;
    while k < dates.len()
        invariant
            forall|i: int| 0 <= i < dates.len() ==> #[trigger] dates[i].wf(),
            lo as int == start.hour_number() * 3600,
            hi as int == end.hour_number() * 3600,
            k <= dates.len(),
            forall|i: int, j: int| 0 <= i < j < picked.len() ==> picked[i] < picked[j],
            forall|i: int| 0 <= i < picked.len() ==> #[trigger] picked[i] < k,
            forall|m: int| 0 <= m < k ==> (within(#[trigger] dates[m], start, end) <==> picked@.contains(m as usize)),
        decreases dates.len() - k,
    {
        let t = dates[k].timestamp();
        let ghost before = picked@;
        if lo <= t && t <= hi {
            picked.push(k);
        }
        proof {
            assert forall|m: int| 0 <= m < k + 1 implies (within(#[trigger] dates[m], start, end)
                <==> picked@.contains(m as usize)) by {
                if m < k {
                    if before.contains(m as usize) {
                        let x = choose|x: int| 0 <= x < before.len() && before[x] == m as usize;
                        assert(picked@[x] == m as usize);
                    }
                    if picked@.contains(m as usize) {
                        let x = choose|x: int| 0 <= x < picked@.len() && picked@[x] == m as usize;
                        if x == before.len() {
                            assert(picked@[x] == k);
                        } else {
                            assert(before[x] == m as usize);
                        }
                    }
                } else {
                    if picked@.contains(k) {
                        let x = choose|x: int| 0 <= x < picked@.len() && picked@[x] == k;
                        if x < before.len() {
                            assert(before[x] < k);
                        }
                    }
                    if lo <= t && t <= hi {
                        assert(picked@[before.len() as int] == k);
                    }
                }
            }
        }
        k = k + 1;
    }
    Ok(picked)
}

} // verus!
