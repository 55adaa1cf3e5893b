//! The store's tables: column names, and the statements that create the tables.
use vstd::prelude::*;
use crate::common::{format_spec, format_strings};
use crate::text::string_views;

verus! {

/// A table of the store.
#[derive(Debug, Clone, Copy, PartialEq, Eq, Structural)]
pub enum TableName {
    Player,
    Statistics,
    Position,
}

/// A name as the store spells it.
pub trait TableNameTrait {
    spec fn name_spec(&self) -> Seq<char>;

    fn as_str(&self) -> (r: &'static str)
        ensures
            r@ == self.name_spec(),
    ;
}

impl TableNameTrait for TableName {
    open spec fn name_spec(&self) -> Seq<char> {
        match self {
            TableName::Player => "player"@,
            TableName::Statistics => "statistics"@,
            TableName::Position => "position"@,
        }
    }

    fn as_str(&self) -> (r: &'static str) {
        match self {
            TableName::Player => "player",
            TableName::Statistics => "statistics",
            TableName::Position => "position",
        }
    }
}

/// A column of a table, as the store spells it.
pub trait TableAttributes: Sized {
    spec fn name_spec(&self) -> Seq<char>;

    fn as_str(&self) -> (r: &'static str)
        ensures
            r@ == self.name_spec(),
    ;
}

/// The names of the columns, in order.
pub open spec fn column_names_spec<T: TableAttributes>(cols: Seq<T>) -> Seq<Seq<char>> {
    cols.map_values(|c: T| c.name_spec())
}

/// The names of the columns, in order.
pub fn column_names<T: TableAttributes>(cols: &Vec<T>) -> (r: Vec<String>)
    ensures
        string_views(r@) == column_names_spec(cols@),
{
    let mut r: Vec<String> = Vec::new();
    let mut i: usize = 0;
    while i < cols.len()
        invariant
            i <= cols@.len(),
            r@.len() == i,
            forall|k: int| 0 <= k < i ==> (#[trigger] r@[k])@ == cols@[k].name_spec(),
        decreases cols.len() - i,
    {
        r.push(cols[i].as_str().to_owned());
        i = i + 1;
    }
    assert(string_views(r@) =~= column_names_spec(cols@));
    r
}

/// The columns of the player table.
#[derive(Debug, Clone, Copy, PartialEq, Eq, Structural)]
pub enum TablePlayerAttributes {
    ID,
    Name,
    JerseyNumber,
    ClubName,
    Nationality,
    Age,
}

impl TableAttributes for TablePlayerAttributes {
    open spec fn name_spec(&self) -> Seq<char> {
        match self {
            TablePlayerAttributes::ID => "id"@,
            TablePlayerAttributes::Name => "name"@,
            TablePlayerAttributes::JerseyNumber => "jersey_number"@,
            TablePlayerAttributes::ClubName => "club_name"@,
            TablePlayerAttributes::Nationality => "nationality"@,
            TablePlayerAttributes::Age => "age"@,
        }
    }

    fn as_str(&self) -> (r: &'static str) {
        match self {
            TablePlayerAttributes::ID => "id",
            TablePlayerAttributes::Name => "name",
            TablePlayerAttributes::JerseyNumber => "jersey_number",
            TablePlayerAttributes::ClubName => "club_name",
            TablePlayerAttributes::Nationality => "nationality",
            TablePlayerAttributes::Age => "age",
        }
    }
}

impl TablePlayerAttributes {
    /// Every column, in table order.
    pub open spec fn all_spec() -> Seq<Self> {
        seq![TablePlayerAttributes::ID, TablePlayerAttributes::Name, TablePlayerAttributes::JerseyNumber, TablePlayerAttributes::ClubName, TablePlayerAttributes::Nationality, TablePlayerAttributes::Age]
    }

    /// Every column, in table order.
    pub fn all() -> (r: Vec<Self>)
        ensures
            r@ == Self::all_spec(),
    {
        let mut r: Vec<Self> = Vec::new();
        r.push(TablePlayerAttributes::ID);
        r.push(TablePlayerAttributes::Name);
        r.push(TablePlayerAttributes::JerseyNumber);
        r.push(TablePlayerAttributes::ClubName);
        r.push(TablePlayerAttributes::Nationality);
        r.push(TablePlayerAttributes::Age);
        assert(r@ =~= seq![TablePlayerAttributes::ID, TablePlayerAttributes::Name, TablePlayerAttributes::JerseyNumber, TablePlayerAttributes::ClubName, TablePlayerAttributes::Nationality, TablePlayerAttributes::Age]);
        r
    }
}

/// The columns of the statistics table.
#[derive(Debug, Clone, Copy, PartialEq, Eq, Structural)]
pub enum TableStatisticsAttributes {
    ID,
    PlayerID,
    Appearances,
    Wins,
    Losses,
    Goals,
    GoalsPerMatch,
    HeadedGoals,
    GoalsRightFoot,
    GoalsLeftFoot,
    GoalsFromPenalties,
    GoalsFromFreekicks,
    Shots,
    ShotsOnTarget,
    ShootingAccuracyPct,
    HitWoodwork,
    CleanSheets,
    GoalsConceded,
    Tackles,
    TackleSuccessPct,
    ShotsBlocked,
    Interceptions,
    Clearances,
    HeadedClearances,
    OwnGoals,
    Assists,
    Passes,
    Crosses,
    CrossAccuracyPct,
    PassesPerMatch,
    Saves,
    PenaltiesSaved,
    Punches,
    HighClaims,
    Catches,
    ThrowOuts,
    GoalKicks,
    CardsYellow,
    CardsRed,
    Fouls,
    Offsides,
}

impl TableAttributes for TableStatisticsAttributes {
    open spec fn name_spec(&self) -> Seq<char> {
        match self {
            TableStatisticsAttributes::ID => "id"@,
            TableStatisticsAttributes::PlayerID => "player_id"@,
            TableStatisticsAttributes::Appearances => "appearances"@,
            TableStatisticsAttributes::Wins => "wins"@,
            TableStatisticsAttributes::Losses => "losses"@,
            TableStatisticsAttributes::Goals => "goals"@,
            TableStatisticsAttributes::GoalsPerMatch => "goals_per_match"@,
            TableStatisticsAttributes::HeadedGoals => "headed_goals"@,
            TableStatisticsAttributes::GoalsRightFoot => "goals_right_foot"@,
            TableStatisticsAttributes::GoalsLeftFoot => "goals_left_foot"@,
            TableStatisticsAttributes::GoalsFromPenalties => "goals_from_penalties"@,
            TableStatisticsAttributes::GoalsFromFreekicks => "goals_from_freekicks"@,
            TableStatisticsAttributes::Shots => "shots"@,
            TableStatisticsAttributes::ShotsOnTarget => "shots_on_target"@,
            TableStatisticsAttributes::ShootingAccuracyPct => "shooting_accuracy_pct"@,
            TableStatisticsAttributes::HitWoodwork => "hit_woodwork"@,
            TableStatisticsAttributes::CleanSheets => "clean_sheets"@,
            TableStatisticsAttributes::GoalsConceded => "goals_conceded"@,
            TableStatisticsAttributes::Tackles => "tackles"@,
            TableStatisticsAttributes::TackleSuccessPct => "tackle_success_pct"@,
            TableStatisticsAttributes::ShotsBlocked => "shots_blocked"@,
            TableStatisticsAttributes::Interceptions => "interceptions"@,
            TableStatisticsAttributes::Clearances => "clearances"@,
            TableStatisticsAttributes::HeadedClearances => "headed_clearances"@,
            TableStatisticsAttributes::OwnGoals => "own_goals"@,
            TableStatisticsAttributes::Assists => "assists"@,
            TableStatisticsAttributes::Passes => "passes"@,
            TableStatisticsAttributes::Crosses => "crosses"@,
            TableStatisticsAttributes::CrossAccuracyPct => "cross_accuracy_pct"@,
            TableStatisticsAttributes::PassesPerMatch => "passes_per_match"@,
            TableStatisticsAttributes::Saves => "saves"@,
            TableStatisticsAttributes::PenaltiesSaved => "penalties_saved"@,
            TableStatisticsAttributes::Punches => "punches"@,
            TableStatisticsAttributes::HighClaims => "high_claims"@,
            TableStatisticsAttributes::Catches => "catches"@,
            TableStatisticsAttributes::ThrowOuts => "throw_outs"@,
            TableStatisticsAttributes::GoalKicks => "goal_kicks"@,
            TableStatisticsAttributes::CardsYellow => "cards_yellow"@,
            TableStatisticsAttributes::CardsRed => "cards_red"@,
            TableStatisticsAttributes::Fouls => "fouls"@,
            TableStatisticsAttributes::Offsides => "offsides"@,
        }
    }

    fn as_str(&self) -> (r: &'static str) {
        match self {
            TableStatisticsAttributes::ID => "id",
            TableStatisticsAttributes::PlayerID => "player_id",
            TableStatisticsAttributes::Appearances => "appearances",
            TableStatisticsAttributes::Wins => "wins",
            TableStatisticsAttributes::Losses => "losses",
            TableStatisticsAttributes::Goals => "goals",
            TableStatisticsAttributes::GoalsPerMatch => "goals_per_match",
            TableStatisticsAttributes::HeadedGoals => "headed_goals",
            TableStatisticsAttributes::GoalsRightFoot => "goals_right_foot",
            TableStatisticsAttributes::GoalsLeftFoot => "goals_left_foot",
            TableStatisticsAttributes::GoalsFromPenalties => "goals_from_penalties",
            TableStatisticsAttributes::GoalsFromFreekicks => "goals_from_freekicks",
            TableStatisticsAttributes::Shots => "shots",
            TableStatisticsAttributes::ShotsOnTarget => "shots_on_target",
            TableStatisticsAttributes::ShootingAccuracyPct => "shooting_accuracy_pct",
            TableStatisticsAttributes::HitWoodwork => "hit_woodwork",
            TableStatisticsAttributes::CleanSheets => "clean_sheets",
            TableStatisticsAttributes::GoalsConceded => "goals_conceded",
            TableStatisticsAttributes::Tackles => "tackles",
            TableStatisticsAttributes::TackleSuccessPct => "tackle_success_pct",
            TableStatisticsAttributes::ShotsBlocked => "shots_blocked",
            TableStatisticsAttributes::Interceptions => "interceptions",
            TableStatisticsAttributes::Clearances => "clearances",
            TableStatisticsAttributes::HeadedClearances => "headed_clearances",
            TableStatisticsAttributes::OwnGoals => "own_goals",
            TableStatisticsAttributes::Assists => "assists",
            TableStatisticsAttributes::Passes => "passes",
            TableStatisticsAttributes::Crosses => "crosses",
            TableStatisticsAttributes::CrossAccuracyPct => "cross_accuracy_pct",
            TableStatisticsAttributes::PassesPerMatch => "passes_per_match",
            TableStatisticsAttributes::Saves => "saves",
            TableStatisticsAttributes::PenaltiesSaved => "penalties_saved",
            TableStatisticsAttributes::Punches => "punches",
            TableStatisticsAttributes::HighClaims => "high_claims",
            TableStatisticsAttributes::Catches => "catches",
            TableStatisticsAttributes::ThrowOuts => "throw_outs",
            TableStatisticsAttributes::GoalKicks => "goal_kicks",
            TableStatisticsAttributes::CardsYellow => "cards_yellow",
            TableStatisticsAttributes::CardsRed => "cards_red",
            TableStatisticsAttributes::Fouls => "fouls",
            TableStatisticsAttributes::Offsides => "offsides",
        }
    }
}

impl TableStatisticsAttributes {
    /// Every column, in table order.
    pub open spec fn all_spec() -> Seq<Self> {
        seq![TableStatisticsAttributes::ID, TableStatisticsAttributes::PlayerID, TableStatisticsAttributes::Appearances, TableStatisticsAttributes::Wins, TableStatisticsAttributes::Losses, TableStatisticsAttributes::Goals, TableStatisticsAttributes::GoalsPerMatch, TableStatisticsAttributes::HeadedGoals, TableStatisticsAttributes::GoalsRightFoot, TableStatisticsAttributes::GoalsLeftFoot, TableStatisticsAttributes::GoalsFromPenalties, TableStatisticsAttributes::GoalsFromFreekicks, TableStatisticsAttributes::Shots, TableStatisticsAttributes::ShotsOnTarget, TableStatisticsAttributes::ShootingAccuracyPct, TableStatisticsAttributes::HitWoodwork, TableStatisticsAttributes::CleanSheets, TableStatisticsAttributes::GoalsConceded, TableStatisticsAttributes::Tackles, TableStatisticsAttributes::TackleSuccessPct, TableStatisticsAttributes::ShotsBlocked, TableStatisticsAttributes::Interceptions, TableStatisticsAttributes::Clearances, TableStatisticsAttributes::HeadedClearances, TableStatisticsAttributes::OwnGoals, TableStatisticsAttributes::Assists, TableStatisticsAttributes::Passes, TableStatisticsAttributes::Crosses, TableStatisticsAttributes::CrossAccuracyPct, TableStatisticsAttributes::PassesPerMatch, TableStatisticsAttributes::Saves, TableStatisticsAttributes::PenaltiesSaved, TableStatisticsAttributes::Punches, TableStatisticsAttributes::HighClaims, TableStatisticsAttributes::Catches, TableStatisticsAttributes::ThrowOuts, TableStatisticsAttributes::GoalKicks, TableStatisticsAttributes::CardsYellow, TableStatisticsAttributes::CardsRed, TableStatisticsAttributes::Fouls, TableStatisticsAttributes::Offsides]
    }

    /// Every column, in table order.
    pub fn all() -> (r: Vec<Self>)
        ensures
            r@ == Self::all_spec(),
    {
        let mut r: Vec<Self> = Vec::new();
        r.push(TableStatisticsAttributes::ID);
        r.push(TableStatisticsAttributes::PlayerID);
        r.push(TableStatisticsAttributes::Appearances);
        r.push(TableStatisticsAttributes::Wins);
        r.push(TableStatisticsAttributes::Losses);
        r.push(TableStatisticsAttributes::Goals);
        r.push(TableStatisticsAttributes::GoalsPerMatch);
        r.push(TableStatisticsAttributes::HeadedGoals);
        r.push(TableStatisticsAttributes::GoalsRightFoot);
        r.push(TableStatisticsAttributes::GoalsLeftFoot);
        r.push(TableStatisticsAttributes::GoalsFromPenalties);
        r.push(TableStatisticsAttributes::GoalsFromFreekicks);
        r.push(TableStatisticsAttributes::Shots);
        r.push(TableStatisticsAttributes::ShotsOnTarget);
        r.push(TableStatisticsAttributes::ShootingAccuracyPct);
        r.push(TableStatisticsAttributes::HitWoodwork);
        r.push(TableStatisticsAttributes::CleanSheets);
        r.push(TableStatisticsAttributes::GoalsConceded);
        r.push(TableStatisticsAttributes::Tackles);
        r.push(TableStatisticsAttributes::TackleSuccessPct);
        r.push(TableStatisticsAttributes::ShotsBlocked);
        r.push(TableStatisticsAttributes::Interceptions);
        r.push(TableStatisticsAttributes::Clearances);
        r.push(TableStatisticsAttributes::HeadedClearances);
        r.push(TableStatisticsAttributes::OwnGoals);
        r.push(TableStatisticsAttributes::Assists);
        r.push(TableStatisticsAttributes::Passes);
        r.push(TableStatisticsAttributes::Crosses);
        r.push(TableStatisticsAttributes::CrossAccuracyPct);
        r.push(TableStatisticsAttributes::PassesPerMatch);
        r.push(TableStatisticsAttributes::Saves);
        r.push(TableStatisticsAttributes::PenaltiesSaved);
        r.push(TableStatisticsAttributes::Punches);
        r.push(TableStatisticsAttributes::HighClaims);
        r.push(TableStatisticsAttributes::Catches);
        r.push(TableStatisticsAttributes::ThrowOuts);
        r.push(TableStatisticsAttributes::GoalKicks);
        r.push(TableStatisticsAttributes::CardsYellow);
        r.push(TableStatisticsAttributes::CardsRed);
        r.push(TableStatisticsAttributes::Fouls);
        r.push(TableStatisticsAttributes::Offsides);
        assert(r@ =~= seq![TableStatisticsAttributes::ID, TableStatisticsAttributes::PlayerID, TableStatisticsAttributes::Appearances, TableStatisticsAttributes::Wins, TableStatisticsAttributes::Losses, TableStatisticsAttributes::Goals, TableStatisticsAttributes::GoalsPerMatch, TableStatisticsAttributes::HeadedGoals, TableStatisticsAttributes::GoalsRightFoot, TableStatisticsAttributes::GoalsLeftFoot, TableStatisticsAttributes::GoalsFromPenalties, TableStatisticsAttributes::GoalsFromFreekicks, TableStatisticsAttributes::Shots, TableStatisticsAttributes::ShotsOnTarget, TableStatisticsAttributes::ShootingAccuracyPct, TableStatisticsAttributes::HitWoodwork, TableStatisticsAttributes::CleanSheets, TableStatisticsAttributes::GoalsConceded, TableStatisticsAttributes::Tackles, TableStatisticsAttributes::TackleSuccessPct, TableStatisticsAttributes::ShotsBlocked, TableStatisticsAttributes::Interceptions, TableStatisticsAttributes::Clearances, TableStatisticsAttributes::HeadedClearances, TableStatisticsAttributes::OwnGoals, TableStatisticsAttributes::Assists, TableStatisticsAttributes::Passes, TableStatisticsAttributes::Crosses, TableStatisticsAttributes::CrossAccuracyPct, TableStatisticsAttributes::PassesPerMatch, TableStatisticsAttributes::Saves, TableStatisticsAttributes::PenaltiesSaved, TableStatisticsAttributes::Punches, TableStatisticsAttributes::HighClaims, TableStatisticsAttributes::Catches, TableStatisticsAttributes::ThrowOuts, TableStatisticsAttributes::GoalKicks, TableStatisticsAttributes::CardsYellow, TableStatisticsAttributes::CardsRed, TableStatisticsAttributes::Fouls, TableStatisticsAttributes::Offsides]);
        r
    }
}

/// The columns of the position table.
#[derive(Debug, Clone, Copy, PartialEq, Eq, Structural)]
pub enum TablePositionAttributes {
    PlayerID,
    Name,
}

impl TableAttributes for TablePositionAttributes {
    open spec fn name_spec(&self) -> Seq<char> {
        match self {
            TablePositionAttributes::PlayerID => "player_id"@,
            TablePositionAttributes::Name => "name"@,
        }
    }

    fn as_str(&self) -> (r: &'static str) {
        match self {
            TablePositionAttributes::PlayerID => "player_id",
            TablePositionAttributes::Name => "name",
        }
    }
}

impl TablePositionAttributes {
    /// Every column, in table order.
    pub open spec fn all_spec() -> Seq<Self> {
        seq![TablePositionAttributes::PlayerID, TablePositionAttributes::Name]
    }

    /// Every column, in table order.
    pub fn all() -> (r: Vec<Self>)
        ensures
            r@ == Self::all_spec(),
    {
        let mut r: Vec<Self> = Vec::new();
        r.push(TablePositionAttributes::PlayerID);
        r.push(TablePositionAttributes::Name);
        assert(r@ =~= seq![TablePositionAttributes::PlayerID, TablePositionAttributes::Name]);
        r
    }
}

/// The statement that creates the player table, before its column names are filled in.
pub const CREATE_TABLE_PLAYER_TEMPLATE: &'static str = "CREATE TABLE player (
            {} INTEGER PRIMARY KEY AUTO_INCREMENT,
            {} VARCHAR(128) NOT NULL,
            {} INTEGER NOT NULL,
            {} VARCHAR(128),
            {} VARCHAR(64) NOT NULL,
            {} INTEGER NOT NULL);";

/// The statement that creates the statistics table, before its column names are filled in.
pub const CREATE_TABLE_STATISTICS_TEMPLATE: &'static str = "CREATE TABLE statistics (
                {} INTEGER PRIMARY KEY AUTO_INCREMENT,
                {} INTEGER FOREIGN KEY,
                {} INTEGER NOT NULL,
                {} INTEGER NOT NULL,
                {} INTEGER NOT NULL,
                {} INTEGER NOT NULL,
                {} INTEGER NOT NULL,
                {} INTEGER NOT NULL,
                {} INTEGER NOT NULL,
                {} INTEGER NOT NULL,
                {} INTEGER NOT NULL,
                {} INTEGER NOT NULL,
                {} INTEGER NOT NULL,
                {} INTEGER NOT NULL,
                {} DECIMAL(5,4) NOT NULL,
                {} INTEGER NOT NULL,
                {} INTEGER NOT NULL,
                {} INTEGER NOT NULL,
                {} INTEGER NOT NULL,
                {} DECIMAL(5,4) NOT NULL,
                {} INTEGER NOT NULL,
                {} INTEGER NOT NULL,
                {} INTEGER NOT NULL,
                {} INTEGER NOT NULL,
                {} INTEGER NOT NULL,
                {} INTEGER NOT NULL,
                {} INTEGER NOT NULL,
                {} INTEGER NOT NULL,
                {} DECIMAL(5,4) NOT NULL,
                {} INTEGER NOT NULL,
                {} INTEGER NOT NULL,
                {} INTEGER NOT NULL,
                {} INTEGER NOT NULL,
                {} INTEGER NOT NULL,
                {} INTEGER NOT NULL,
                {} INTEGER NOT NULL,
                {} INTEGER NOT NULL,
                {} INTEGER NOT NULL,
                {} INTEGER NOT NULL,
                {} INTEGER NOT NULL,
                {} INTEGER NOT NULL
            );";

/// The statement that creates the position table, before its column names are filled in.
pub const CREATE_TABLE_POSITION_TEMPLATE: &'static str = "CREATE TABLE position (
                {} INTEGER FOREIGN KEY
                {} VARCHAR(10) FOREIGN KEY
            );";

/// A statement that creates one of the tables.
#[derive(Debug, Clone, Copy, PartialEq, Eq, Structural)]
pub enum PredefinedQuery {
    CreateTablePlayer,
    CreateTableStatistics,
    CreateTablePosition,
}

/// The statement: its template with the table's column names filled in, in order.
pub open spec fn predefined_query_spec(query: PredefinedQuery) -> Seq<char> {
    match query {
        PredefinedQuery::CreateTablePlayer => format_spec(
            CREATE_TABLE_PLAYER_TEMPLATE@,
            column_names_spec(TablePlayerAttributes::all_spec()),
        ),
        PredefinedQuery::CreateTableStatistics => format_spec(
            CREATE_TABLE_STATISTICS_TEMPLATE@,
            column_names_spec(TableStatisticsAttributes::all_spec()),
        ),
        PredefinedQuery::CreateTablePosition => format_spec(
            CREATE_TABLE_POSITION_TEMPLATE@,
            column_names_spec(TablePositionAttributes::all_spec()),
        ),
    }
}

/// The statement that creates a table.
pub fn get_predefined_query(query: PredefinedQuery) -> (r: String)
    ensures
        r@ == predefined_query_spec(query),
{
    match query {
        PredefinedQuery::CreateTablePlayer => format_strings(
            CREATE_TABLE_PLAYER_TEMPLATE,
            &column_names(&TablePlayerAttributes::all()),
        ),
        PredefinedQuery::CreateTableStatistics => format_strings(
            CREATE_TABLE_STATISTICS_TEMPLATE,
            &column_names(&TableStatisticsAttributes::all()),
        ),
        PredefinedQuery::CreateTablePosition => format_strings(
            CREATE_TABLE_POSITION_TEMPLATE,
            &column_names(&TablePositionAttributes::all()),
        ),
    }
}

/// Statements by kind, one at a time or all together.
pub trait PredefinedQueryTrait {
    fn get_string(query: PredefinedQuery) -> (r: String)
        ensures
            r@ == predefined_query_spec(query),
    ;

    fn get_all_strings() -> (r: Vec<String>)
        ensures
            string_views(r@) == seq![
                predefined_query_spec(PredefinedQuery::CreateTablePlayer),
                predefined_query_spec(PredefinedQuery::CreateTableStatistics),
                predefined_query_spec(PredefinedQuery::CreateTablePosition),
            ],
    ;
}

impl PredefinedQueryTrait for PredefinedQuery {
    fn get_string(query: PredefinedQuery) -> (r: String) {
        get_predefined_query(query)
    }

    fn get_all_strings() -> (r: Vec<String>) {
        let mut r: Vec<String> = Vec::new();
        r.push(get_predefined_query(PredefinedQuery::CreateTablePlayer));
        r.push(get_predefined_query(PredefinedQuery::CreateTableStatistics));
        r.push(get_predefined_query(PredefinedQuery::CreateTablePosition));
        assert(string_views(r@) =~= seq![
            predefined_query_spec(PredefinedQuery::CreateTablePlayer),
            predefined_query_spec(PredefinedQuery::CreateTableStatistics),
            predefined_query_spec(PredefinedQuery::CreateTablePosition),
        ]);
        r
    }
}

} // verus!
