use weather::calendar::SimpleDate;
use weather::store::{plan_forecasts, schema_plan, select_range, DbError, DbManager, Direction, SchemaStep};

fn date(year: u16, day: u16, hour: u8) -> SimpleDate {
    SimpleDate::new(year, day, hour)
}

fn table_count(db: &DbManager) -> i64 {
    db.conn
        .query_row(
            "SELECT count(*) FROM sqlite_master WHERE name IN ('weather', 'prediction', 'year_day_hour', 'year_day_hour_diff')",
            [],
            |row| row.get(0),
        )
        .unwrap()
}

#[test]
fn schema_plans() {
    let fresh = schema_plan(0).unwrap();
    assert_eq!(fresh.len(), 5);
    assert_eq!(fresh[4], SchemaStep::SetVersion(1));
    assert!(schema_plan(1).unwrap().is_empty());
    assert!(matches!(schema_plan(99), Err(DbError::UnsupportedVersion(99))));
}

#[test]
fn initialize_twice() {
    let mut db = DbManager::new(":memory:".to_string()).unwrap();
    db.init().unwrap();
    let created = table_count(&db);
    assert_eq!(created, 4);
    db.init().unwrap();
    assert_eq!(table_count(&db), created);
    let version: i64 = db.conn.query_row("PRAGMA user_version", [], |row| row.get(0)).unwrap();
    assert_eq!(version, 1);
}

#[test]
fn unknown_version_is_refused_without_writes() {
    let mut db = DbManager::new(":memory:".to_string()).unwrap();
    db.conn.execute_batch("PRAGMA user_version = 99").unwrap();
    assert!(matches!(db.init(), Err(DbError::UnsupportedVersion(99))));
    assert_eq!(table_count(&db), 0);
}

#[test]
fn forecast_chain_keys() {
    let origin = date(2020, 5, 22);
    let targets = vec![date(2020, 5, 23), date(2020, 6, 0), date(2020, 6, 1)];
    let keys = plan_forecasts(origin, &targets);
    assert_eq!(keys.len(), 3);
    for (i, key) in keys.iter().enumerate() {
        assert_eq!(key.hour_diff as usize, i + 1);
        assert_eq!(key.reading, origin);
        assert_eq!(key.prediction, targets[i]);
    }
    assert_eq!(keys[0].id, "2020-005-23-2020-005-22");
    assert_eq!(keys[2].id, "2020-006-01-2020-005-22");
    assert!(plan_forecasts(origin, &vec![]).is_empty());
}

#[test]
fn range_selection() {
    let dates = vec![date(2020, 1, 0), date(2020, 1, 5), date(2020, 2, 0), date(2019, 365, 23)];
    let picked = select_range(&dates, date(2020, 1, 0), date(2020, 1, 23)).unwrap();
    assert_eq!(picked, vec![0, 1]);
    let single = select_range(&dates, date(2020, 2, 0), date(2020, 2, 0)).unwrap();
    assert_eq!(single, vec![2]);
}

#[test]
fn malformed_ranges_are_refused() {
    let dates = vec![date(2020, 1, 0)];
    assert!(matches!(
        select_range(&dates, date(2020, 2, 0), date(2020, 1, 0)),
        Err(DbError::InvalidRange)
    ));
    assert!(matches!(
        select_range(&dates, date(2019, 366, 0), date(2020, 1, 0)),
        Err(DbError::InvalidRange)
    ));
}

#[test]
fn order_keywords() {
    assert_eq!(Direction::Ascending.keyword(), "ASC");
    assert_eq!(Direction::Descending.keyword(), "DESC");
}

fn insert_chain(db: &mut DbManager, origin: SimpleDate, targets: &Vec<SimpleDate>) -> rusqlite::Result<()> {
    let keys = plan_forecasts(origin, targets);
    let tx = db.conn.transaction()?;
    tx.execute(
        "INSERT INTO weather (id, year, day, hour, icon, temp) VALUES (?1, ?2, ?3, ?4, 'rain', 10.0)",
        (weather::models::observation_id(origin.year, origin.day, origin.hour), origin.year, origin.day, origin.hour),
    )?;
    for key in &keys {
        tx.execute(
            "INSERT INTO prediction (id, reading_year, reading_day, reading_hour, prediction_year, prediction_day, prediction_hour, hour_diff) VALUES (?1, ?2, ?3, ?4, ?5, ?6, ?7, ?8)",
            (key.id.as_str(), key.reading.year, key.reading.day, key.reading.hour, key.prediction.year, key.prediction.day, key.prediction.hour, key.hour_diff),
        )?;
    }
    tx.commit()
}

fn rows(db: &DbManager, table: &str) -> i64 {
    db.conn
        .query_row(&format!("SELECT count(*) FROM {}", table), [], |row| row.get(0))
        .unwrap()
}

#[test]
fn reinserting_an_hour_fails_and_keeps_the_tables() {
    let mut db = DbManager::new(":memory:".to_string()).unwrap();
    db.init().unwrap();
    let origin = date(2020, 5, 22);
    let targets = vec![date(2020, 5, 23), date(2020, 6, 0)];
    insert_chain(&mut db, origin, &targets).unwrap();
    assert_eq!(rows(&db, "weather"), 1);
    assert_eq!(rows(&db, "prediction"), 2);

    let other_targets = vec![date(2020, 6, 1), date(2020, 6, 2), date(2020, 6, 3)];
    assert!(insert_chain(&mut db, origin, &other_targets).is_err());
    assert_eq!(rows(&db, "weather"), 1);
    assert_eq!(rows(&db, "prediction"), 2);
}

#[test]
fn forecasts_read_back_in_hour_order() {
    let mut db = DbManager::new(":memory:".to_string()).unwrap();
    db.init().unwrap();
    let origin = date(2020, 5, 22);
    let targets = vec![date(2020, 5, 23), date(2020, 6, 0), date(2020, 6, 1)];
    insert_chain(&mut db, origin, &targets).unwrap();
    let mut statement = db
        .conn
        .prepare("SELECT hour_diff FROM prediction WHERE reading_year = 2020 AND reading_day = 5 AND reading_hour = 22 ORDER BY hour_diff")
        .unwrap();
    let diffs: Vec<u8> = statement
        .query_map([], |row| row.get(0))
        .unwrap()
        .map(|d| d.unwrap())
        .collect();
    assert_eq!(diffs, vec![1, 2, 3]);
}

#[test]
fn schema_steps_run_their_own_statements() {
    assert_eq!(SchemaStep::CreateWeatherTable.sql(), Some(weather::store::CREATE_WEATHER_TABLE));
    assert_eq!(SchemaStep::CreateWeatherIndex.sql(), Some(weather::store::CREATE_WEATHER_UNIQUE_INDEX));
    assert_eq!(SchemaStep::CreatePredictionTable.sql(), Some(weather::store::CREATE_PREDICTION_TABLE));
    assert_eq!(SchemaStep::CreatePredictionIndex.sql(), Some(weather::store::CREATE_PREDICTION_UNIQUE_INDEX));
    assert_eq!(SchemaStep::SetVersion(1).sql(), None);
}
