//! Ticker identities and their contract metadata, in fixed-point units:
//! the minimum price increment in hundredths of a quote unit, the contract
//! multiplier, the assumed slippage in tenths of a price tick unit, and the
//! commission, either a fixed amount in hundredths per lot or a
//! proportional rate in millionths of traded money.

use vstd::prelude::*;

verus! {

/// The traded instruments.
#[allow(non_camel_case_types)]
#[derive(Clone, Copy, PartialEq, Eq, Structural, Debug, Hash)]
pub enum Ticker {
    al,
    cu,
    ni,
    sn,
    zn,
    bu,
    eg,
    MA,
    l,
    pp,
    TA,
    v,
    ru,
    eb,
    PF,
    SA,
    jm,
    FG,
    hc,
    i,
    j,
    SM,
    rb,
    SF,
    ZC,
    ss,
    p,
    y,
    OI,
    fu,
    sc,
    pg,
    au,
    ag,
    m,
    a,
    jd,
    RM,
    AP,
    SR,
    sp,
    CF,
    c,
    cs,
    SH,
    UR,
    IF,
}

/// How a trade is charged: a fixed amount in hundredths per lot, or a
/// proportional rate in millionths of the traded money.
#[derive(Clone, Copy, PartialEq, Eq, Structural, Debug)]
pub enum Commission {
    Fixed(i64),
    Proportional(i64),
}

/// Contract metadata of one ticker, in fixed-point units.
#[derive(Clone, Copy, PartialEq, Eq, Structural, Debug)]
pub struct TickerInfo {
    pub price_tick: i64,
    pub volume_multiple: i64,
    pub slippage: i64,
    pub commission: Commission,
}

/// The metadata table.
pub open spec fn info_of(t: Ticker) -> TickerInfo {
    match t {
        Ticker::al => TickerInfo { price_tick: 500, volume_multiple: 5, slippage: 10, commission: Commission::Fixed(300) },
        Ticker::cu => TickerInfo { price_tick: 1000, volume_multiple: 5, slippage: 10, commission: Commission::Proportional(50) },
        Ticker::ni => TickerInfo { price_tick: 1000, volume_multiple: 1, slippage: 10, commission: Commission::Fixed(300) },
        Ticker::sn => TickerInfo { price_tick: 1000, volume_multiple: 1, slippage: 100, commission: Commission::Fixed(300) },
        Ticker::zn => TickerInfo { price_tick: 500, volume_multiple: 5, slippage: 10, commission: Commission::Fixed(300) },
        Ticker::bu => TickerInfo { price_tick: 100, volume_multiple: 10, slippage: 5, commission: Commission::Proportional(100) },
        Ticker::eg => TickerInfo { price_tick: 100, volume_multiple: 10, slippage: 5, commission: Commission::Fixed(300) },
        Ticker::MA => TickerInfo { price_tick: 100, volume_multiple: 10, slippage: 5, commission: Commission::Fixed(200) },
        Ticker::l => TickerInfo { price_tick: 100, volume_multiple: 5, slippage: 5, commission: Commission::Fixed(100) },
        Ticker::pp => TickerInfo { price_tick: 100, volume_multiple: 5, slippage: 5, commission: Commission::Fixed(100) },
        Ticker::TA => TickerInfo { price_tick: 200, volume_multiple: 5, slippage: 5, commission: Commission::Fixed(300) },
        Ticker::v => TickerInfo { price_tick: 100, volume_multiple: 5, slippage: 25, commission: Commission::Fixed(100) },
        Ticker::ru => TickerInfo { price_tick: 500, volume_multiple: 10, slippage: 3, commission: Commission::Fixed(300) },
        Ticker::eb => TickerInfo { price_tick: 100, volume_multiple: 5, slippage: 20, commission: Commission::Fixed(300) },
        Ticker::PF => TickerInfo { price_tick: 200, volume_multiple: 5, slippage: 5, commission: Commission::Fixed(300) },
        Ticker::SA => TickerInfo { price_tick: 100, volume_multiple: 20, slippage: 5, commission: Commission::Fixed(350) },
        Ticker::jm => TickerInfo { price_tick: 50, volume_multiple: 60, slippage: 5, commission: Commission::Proportional(140) },
        Ticker::FG => TickerInfo { price_tick: 100, volume_multiple: 20, slippage: 5, commission: Commission::Fixed(300) },
        Ticker::hc => TickerInfo { price_tick: 100, volume_multiple: 10, slippage: 5, commission: Commission::Proportional(100) },
        Ticker::i => TickerInfo { price_tick: 50, volume_multiple: 100, slippage: 5, commission: Commission::Proportional(100) },
        Ticker::j => TickerInfo { price_tick: 50, volume_multiple: 100, slippage: 10, commission: Commission::Proportional(140) },
        Ticker::SM => TickerInfo { price_tick: 200, volume_multiple: 5, slippage: 5, commission: Commission::Fixed(300) },
        Ticker::rb => TickerInfo { price_tick: 100, volume_multiple: 10, slippage: 5, commission: Commission::Proportional(100) },
        Ticker::SF => TickerInfo { price_tick: 200, volume_multiple: 5, slippage: 5, commission: Commission::Fixed(300) },
        Ticker::ZC => TickerInfo { price_tick: 20, volume_multiple: 100, slippage: 5, commission: Commission::Fixed(15100) },
        Ticker::ss => TickerInfo { price_tick: 500, volume_multiple: 5, slippage: 5, commission: Commission::Fixed(200) },
        Ticker::p => TickerInfo { price_tick: 200, volume_multiple: 10, slippage: 5, commission: Commission::Fixed(250) },
        Ticker::y => TickerInfo { price_tick: 200, volume_multiple: 5, slippage: 5, commission: Commission::Fixed(200) },
        Ticker::OI => TickerInfo { price_tick: 100, volume_multiple: 10, slippage: 5, commission: Commission::Fixed(200) },
        Ticker::fu => TickerInfo { price_tick: 100, volume_multiple: 10, slippage: 5, commission: Commission::Proportional(50) },
        Ticker::sc => TickerInfo { price_tick: 10, volume_multiple: 1000, slippage: 5, commission: Commission::Fixed(2000) },
        Ticker::pg => TickerInfo { price_tick: 100, volume_multiple: 20, slippage: 5, commission: Commission::Fixed(600) },
        Ticker::au => TickerInfo { price_tick: 2, volume_multiple: 1000, slippage: 5, commission: Commission::Fixed(1000) },
        Ticker::ag => TickerInfo { price_tick: 100, volume_multiple: 15, slippage: 5, commission: Commission::Proportional(50) },
        Ticker::m => TickerInfo { price_tick: 100, volume_multiple: 10, slippage: 5, commission: Commission::Fixed(150) },
        Ticker::a => TickerInfo { price_tick: 100, volume_multiple: 10, slippage: 5, commission: Commission::Fixed(200) },
        Ticker::jd => TickerInfo { price_tick: 100, volume_multiple: 10, slippage: 5, commission: Commission::Fixed(150) },
        Ticker::RM => TickerInfo { price_tick: 100, volume_multiple: 10, slippage: 5, commission: Commission::Fixed(150) },
        Ticker::AP => TickerInfo { price_tick: 100, volume_multiple: 10, slippage: 5, commission: Commission::Fixed(500) },
        Ticker::SR => TickerInfo { price_tick: 100, volume_multiple: 10, slippage: 5, commission: Commission::Fixed(150) },
        Ticker::sp => TickerInfo { price_tick: 200, volume_multiple: 10, slippage: 5, commission: Commission::Proportional(50) },
        Ticker::CF => TickerInfo { price_tick: 500, volume_multiple: 5, slippage: 5, commission: Commission::Fixed(500) },
        Ticker::c => TickerInfo { price_tick: 100, volume_multiple: 10, slippage: 5, commission: Commission::Fixed(120) },
        Ticker::cs => TickerInfo { price_tick: 100, volume_multiple: 10, slippage: 5, commission: Commission::Fixed(150) },
        Ticker::SH => TickerInfo { price_tick: 100, volume_multiple: 30, slippage: 10, commission: Commission::Fixed(300) },
        Ticker::UR => TickerInfo { price_tick: 100, volume_multiple: 20, slippage: 10, commission: Commission::Proportional(100) },
        Ticker::IF => TickerInfo { price_tick: 20, volume_multiple: 300, slippage: 5, commission: Commission::Proportional(100) },
    }
}

impl Ticker {
    /// The ticker's contract metadata.
    pub fn info(&self) -> (r: TickerInfo)
        ensures
            r == info_of(*self),
    {
        match self {
            Ticker::al => TickerInfo { price_tick: 500, volume_multiple: 5, slippage: 10, commission: Commission::Fixed(300) },
            Ticker::cu => TickerInfo { price_tick: 1000, volume_multiple: 5, slippage: 10, commission: Commission::Proportional(50) },
            Ticker::ni => TickerInfo { price_tick: 1000, volume_multiple: 1, slippage: 10, commission: Commission::Fixed(300) },
            Ticker::sn => TickerInfo { price_tick: 1000, volume_multiple: 1, slippage: 100, commission: Commission::Fixed(300) },
            Ticker::zn => TickerInfo { price_tick: 500, volume_multiple: 5, slippage: 10, commission: Commission::Fixed(300) },
            Ticker::bu => TickerInfo { price_tick: 100, volume_multiple: 10, slippage: 5, commission: Commission::Proportional(100) },
            Ticker::eg => TickerInfo { price_tick: 100, volume_multiple: 10, slippage: 5, commission: Commission::Fixed(300) },
            Ticker::MA => TickerInfo { price_tick: 100, volume_multiple: 10, slippage: 5, commission: Commission::Fixed(200) },
            Ticker::l => TickerInfo { price_tick: 100, volume_multiple: 5, slippage: 5, commission: Commission::Fixed(100) },
            Ticker::pp => TickerInfo { price_tick: 100, volume_multiple: 5, slippage: 5, commission: Commission::Fixed(100) },
            Ticker::TA => TickerInfo { price_tick: 200, volume_multiple: 5, slippage: 5, commission: Commission::Fixed(300) },
            Ticker::v => TickerInfo { price_tick: 100, volume_multiple: 5, slippage: 25, commission: Commission::Fixed(100) },
            Ticker::ru => TickerInfo { price_tick: 500, volume_multiple: 10, slippage: 3, commission: Commission::Fixed(300) },
            Ticker::eb => TickerInfo { price_tick: 100, volume_multiple: 5, slippage: 20, commission: Commission::Fixed(300) },
            Ticker::PF => TickerInfo { price_tick: 200, volume_multiple: 5, slippage: 5, commission: Commission::Fixed(300) },
            Ticker::SA => TickerInfo { price_tick: 100, volume_multiple: 20, slippage: 5, commission: Commission::Fixed(350) },
            Ticker::jm => TickerInfo { price_tick: 50, volume_multiple: 60, slippage: 5, commission: Commission::Proportional(140) },
            Ticker::FG => TickerInfo { price_tick: 100, volume_multiple: 20, slippage: 5, commission: Commission::Fixed(300) },
            Ticker::hc => TickerInfo { price_tick: 100, volume_multiple: 10, slippage: 5, commission: Commission::Proportional(100) },
            Ticker::i => TickerInfo { price_tick: 50, volume_multiple: 100, slippage: 5, commission: Commission::Proportional(100) },
            Ticker::j => TickerInfo { price_tick: 50, volume_multiple: 100, slippage: 10, commission: Commission::Proportional(140) },
            Ticker::SM => TickerInfo { price_tick: 200, volume_multiple: 5, slippage: 5, commission: Commission::Fixed(300) },
            Ticker::rb => TickerInfo { price_tick: 100, volume_multiple: 10, slippage: 5, commission: Commission::Proportional(100) },
            Ticker::SF => TickerInfo { price_tick: 200, volume_multiple: 5, slippage: 5, commission: Commission::Fixed(300) },
            Ticker::ZC => TickerInfo { price_tick: 20, volume_multiple: 100, slippage: 5, commission: Commission::Fixed(15100) },
            Ticker::ss => TickerInfo { price_tick: 500, volume_multiple: 5, slippage: 5, commission: Commission::Fixed(200) },
            Ticker::p => TickerInfo { price_tick: 200, volume_multiple: 10, slippage: 5, commission: Commission::Fixed(250) },
            Ticker::y => TickerInfo { price_tick: 200, volume_multiple: 5, slippage: 5, commission: Commission::Fixed(200) },
            Ticker::OI => TickerInfo { price_tick: 100, volume_multiple: 10, slippage: 5, commission: Commission::Fixed(200) },
            Ticker::fu => TickerInfo { price_tick: 100, volume_multiple: 10, slippage: 5, commission: Commission::Proportional(50) },
            Ticker::sc => TickerInfo { price_tick: 10, volume_multiple: 1000, slippage: 5, commission: Commission::Fixed(2000) },
            Ticker::pg => TickerInfo { price_tick: 100, volume_multiple: 20, slippage: 5, commission: Commission::Fixed(600) },
            Ticker::au => TickerInfo { price_tick: 2, volume_multiple: 1000, slippage: 5, commission: Commission::Fixed(1000) },
            Ticker::ag => TickerInfo { price_tick: 100, volume_multiple: 15, slippage: 5, commission: Commission::Proportional(50) },
            Ticker::m => TickerInfo { price_tick: 100, volume_multiple: 10, slippage: 5, commission: Commission::Fixed(150) },
            Ticker::a => TickerInfo { price_tick: 100, volume_multiple: 10, slippage: 5, commission: Commission::Fixed(200) },
            Ticker::jd => TickerInfo { price_tick: 100, volume_multiple: 10, slippage: 5, commission: Commission::Fixed(150) },
            Ticker::RM => TickerInfo { price_tick: 100, volume_multiple: 10, slippage: 5, commission: Commission::Fixed(150) },
            Ticker::AP => TickerInfo { price_tick: 100, volume_multiple: 10, slippage: 5, commission: Commission::Fixed(500) },
            Ticker::SR => TickerInfo { price_tick: 100, volume_multiple: 10, slippage: 5, commission: Commission::Fixed(150) },
            Ticker::sp => TickerInfo { price_tick: 200, volume_multiple: 10, slippage: 5, commission: Commission::Proportional(50) },
            Ticker::CF => TickerInfo { price_tick: 500, volume_multiple: 5, slippage: 5, commission: Commission::Fixed(500) },
            Ticker::c => TickerInfo { price_tick: 100, volume_multiple: 10, slippage: 5, commission: Commission::Fixed(120) },
            Ticker::cs => TickerInfo { price_tick: 100, volume_multiple: 10, slippage: 5, commission: Commission::Fixed(150) },
            Ticker::SH => TickerInfo { price_tick: 100, volume_multiple: 30, slippage: 10, commission: Commission::Fixed(300) },
            Ticker::UR => TickerInfo { price_tick: 100, volume_multiple: 20, slippage: 10, commission: Commission::Proportional(100) },
            Ticker::IF => TickerInfo { price_tick: 20, volume_multiple: 300, slippage: 5, commission: Commission::Proportional(100) },
        }
    }
}

/// The wire name of a ticker.
pub open spec fn str_of_ticker(t: Ticker) -> Seq<char> {
    match t {
        Ticker::al => "al"@,
        Ticker::cu => "cu"@,
        Ticker::ni => "ni"@,
        Ticker::sn => "sn"@,
        Ticker::zn => "zn"@,
        Ticker::bu => "bu"@,
        Ticker::eg => "eg"@,
        Ticker::MA => "MA"@,
        Ticker::l => "l"@,
        Ticker::pp => "pp"@,
        Ticker::TA => "TA"@,
        Ticker::v => "v"@,
        Ticker::ru => "ru"@,
        Ticker::eb => "eb"@,
        Ticker::PF => "PF"@,
        Ticker::SA => "SA"@,
        Ticker::jm => "jm"@,
        Ticker::FG => "FG"@,
        Ticker::hc => "hc"@,
        Ticker::i => "i"@,
        Ticker::j => "j"@,
        Ticker::SM => "SM"@,
        Ticker::rb => "rb"@,
        Ticker::SF => "SF"@,
        Ticker::ZC => "ZC"@,
        Ticker::ss => "ss"@,
        Ticker::p => "p"@,
        Ticker::y => "y"@,
        Ticker::OI => "OI"@,
        Ticker::fu => "fu"@,
        Ticker::sc => "sc"@,
        Ticker::pg => "pg"@,
        Ticker::au => "au"@,
        Ticker::ag => "ag"@,
        Ticker::m => "m"@,
        Ticker::a => "a"@,
        Ticker::jd => "jd"@,
        Ticker::RM => "RM"@,
        Ticker::AP => "AP"@,
        Ticker::SR => "SR"@,
        Ticker::sp => "sp"@,
        Ticker::CF => "CF"@,
        Ticker::c => "c"@,
        Ticker::cs => "cs"@,
        Ticker::SH => "SH"@,
        Ticker::UR => "UR"@,
        Ticker::IF => "IF"@,
    }
}

/// The wire name of a ticker.
pub fn convert_ticker_to_str(ticker: Ticker) -> (r: &'static str)
    ensures
        r@ == str_of_ticker(ticker),
{
    match ticker {
        Ticker::al => "al",
        Ticker::cu => "cu",
        Ticker::ni => "ni",
        Ticker::sn => "sn",
        Ticker::zn => "zn",
        Ticker::bu => "bu",
        Ticker::eg => "eg",
        Ticker::MA => "MA",
        Ticker::l => "l",
        Ticker::pp => "pp",
        Ticker::TA => "TA",
        Ticker::v => "v",
        Ticker::ru => "ru",
        Ticker::eb => "eb",
        Ticker::PF => "PF",
        Ticker::SA => "SA",
        Ticker::jm => "jm",
        Ticker::FG => "FG",
        Ticker::hc => "hc",
        Ticker::i => "i",
        Ticker::j => "j",
        Ticker::SM => "SM",
        Ticker::rb => "rb",
        Ticker::SF => "SF",
        Ticker::ZC => "ZC",
        Ticker::ss => "ss",
        Ticker::p => "p",
        Ticker::y => "y",
        Ticker::OI => "OI",
        Ticker::fu => "fu",
        Ticker::sc => "sc",
        Ticker::pg => "pg",
        Ticker::au => "au",
        Ticker::ag => "ag",
        Ticker::m => "m",
        Ticker::a => "a",
        Ticker::jd => "jd",
        Ticker::RM => "RM",
        Ticker::AP => "AP",
        Ticker::SR => "SR",
        Ticker::sp => "sp",
        Ticker::CF => "CF",
        Ticker::c => "c",
        Ticker::cs => "cs",
        Ticker::SH => "SH",
        Ticker::UR => "UR",
        Ticker::IF => "IF",
    }
}

/// The ticker a wire name denotes, if any.
pub open spec fn ticker_of_str(s: Seq<char>) -> Option<Ticker> {
    if s == "al"@ {
        Some(Ticker::al)
    } else if s == "cu"@ {
        Some(Ticker::cu)
    } else if s == "ni"@ {
        Some(Ticker::ni)
    } else if s == "sn"@ {
        Some(Ticker::sn)
    } else if s == "zn"@ {
        Some(Ticker::zn)
    } else if s == "bu"@ {
        Some(Ticker::bu)
    } else if s == "eg"@ {
        Some(Ticker::eg)
    } else if s == "MA"@ {
        Some(Ticker::MA)
    } else if s == "l"@ {
        Some(Ticker::l)
    } else if s == "pp"@ {
        Some(Ticker::pp)
    } else if s == "TA"@ {
        Some(Ticker::TA)
    } else if s == "v"@ {
        Some(Ticker::v)
    } else if s == "ru"@ {
        Some(Ticker::ru)
    } else if s == "eb"@ {
        Some(Ticker::eb)
    } else if s == "PF"@ {
        Some(Ticker::PF)
    } else if s == "SA"@ {
        Some(Ticker::SA)
    } else if s == "jm"@ {
        Some(Ticker::jm)
    } else if s == "FG"@ {
        Some(Ticker::FG)
    } else if s == "hc"@ {
        Some(Ticker::hc)
    } else if s == "i"@ {
        Some(Ticker::i)
    } else if s == "j"@ {
        Some(Ticker::j)
    } else if s == "SM"@ {
        Some(Ticker::SM)
    } else if s == "rb"@ {
        Some(Ticker::rb)
    } else if s == "SF"@ {
        Some(Ticker::SF)
    } else if s == "ZC"@ {
        Some(Ticker::ZC)
    } else if s == "ss"@ {
        Some(Ticker::ss)
    } else if s == "p"@ {
        Some(Ticker::p)
    } else if s == "y"@ {
        Some(Ticker::y)
    } else if s == "OI"@ {
        Some(Ticker::OI)
    } else if s == "fu"@ {
        Some(Ticker::fu)
    } else if s == "sc"@ {
        Some(Ticker::sc)
    } else if s == "pg"@ {
        Some(Ticker::pg)
    } else if s == "au"@ {
        Some(Ticker::au)
    } else if s == "ag"@ {
        Some(Ticker::ag)
    } else if s == "m"@ {
        Some(Ticker::m)
    } else if s == "a"@ {
        Some(Ticker::a)
    } else if s == "jd"@ {
        Some(Ticker::jd)
    } else if s == "RM"@ {
        Some(Ticker::RM)
    } else if s == "AP"@ {
        Some(Ticker::AP)
    } else if s == "SR"@ {
        Some(Ticker::SR)
    } else if s == "sp"@ {
        Some(Ticker::sp)
    } else if s == "CF"@ {
        Some(Ticker::CF)
    } else if s == "c"@ {
        Some(Ticker::c)
    } else if s == "cs"@ {
        Some(Ticker::cs)
    } else if s == "SH"@ {
        Some(Ticker::SH)
    } else if s == "UR"@ {
        Some(Ticker::UR)
    } else if s == "IF"@ {
        Some(Ticker::IF)
    } else {
        None
    }
}

/// Parses a wire name.
#[verifier::rlimit(60)]
pub fn ticker_from_str(s: &str) -> (r: Option<Ticker>)
    ensures
        r == ticker_of_str(s@),
{
    proof {
        reveal_strlit("al");
        reveal_strlit("cu");
        reveal_strlit("ni");
        reveal_strlit("sn");
        reveal_strlit("zn");
        reveal_strlit("bu");
        reveal_strlit("eg");
        reveal_strlit("MA");
        reveal_strlit("l");
        reveal_strlit("pp");
        reveal_strlit("TA");
        reveal_strlit("v");
        reveal_strlit("ru");
        reveal_strlit("eb");
        reveal_strlit("PF");
        reveal_strlit("SA");
        reveal_strlit("jm");
        reveal_strlit("FG");
        reveal_strlit("hc");
        reveal_strlit("i");
        reveal_strlit("j");
        reveal_strlit("SM");
        reveal_strlit("rb");
        reveal_strlit("SF");
        reveal_strlit("ZC");
        reveal_strlit("ss");
        reveal_strlit("p");
        reveal_strlit("y");
        reveal_strlit("OI");
        reveal_strlit("fu");
        reveal_strlit("sc");
        reveal_strlit("pg");
        reveal_strlit("au");
        reveal_strlit("ag");
        reveal_strlit("m");
        reveal_strlit("a");
        reveal_strlit("jd");
        reveal_strlit("RM");
        reveal_strlit("AP");
        reveal_strlit("SR");
        reveal_strlit("sp");
        reveal_strlit("CF");
        reveal_strlit("c");
        reveal_strlit("cs");
        reveal_strlit("SH");
        reveal_strlit("UR");
        reveal_strlit("IF");
    }
    let n = s.unicode_len();
    if n == 1 {
        let c0 = s.get_char(0);
        if c0 == 'l' {
            proof { assert(s@ =~= "l"@); }
            Some(Ticker::l)
        } else if c0 == 'v' {
            proof { assert(s@ =~= "v"@); }
            Some(Ticker::v)
        } else if c0 == 'i' {
            proof { assert(s@ =~= "i"@); }
            Some(Ticker::i)
        } else if c0 == 'j' {
            proof { assert(s@ =~= "j"@); }
            Some(Ticker::j)
        } else if c0 == 'p' {
            proof { assert(s@ =~= "p"@); }
            Some(Ticker::p)
        } else if c0 == 'y' {
            proof { assert(s@ =~= "y"@); }
            Some(Ticker::y)
        } else if c0 == 'm' {
            proof { assert(s@ =~= "m"@); }
            Some(Ticker::m)
        } else if c0 == 'a' {
            proof { assert(s@ =~= "a"@); }
            Some(Ticker::a)
        } else if c0 == 'c' {
            proof { assert(s@ =~= "c"@); }
            Some(Ticker::c)
        } else {
            None
        }
    } else if n == 2 {
        let c0 = s.get_char(0);
        let c1 = s.get_char(1);
        if c0 == 'a' && c1 == 'l' {
            proof { assert(s@ =~= "al"@); }
            Some(Ticker::al)
        } else if c0 == 'c' && c1 == 'u' {
            proof { assert(s@ =~= "cu"@); }
            Some(Ticker::cu)
        } else if c0 == 'n' && c1 == 'i' {
            proof { assert(s@ =~= "ni"@); }
            Some(Ticker::ni)
        } else if c0 == 's' && c1 == 'n' {
            proof { assert(s@ =~= "sn"@); }
            Some(Ticker::sn)
        } else if c0 == 'z' && c1 == 'n' {
            proof { assert(s@ =~= "zn"@); }
            Some(Ticker::zn)
        } else if c0 == 'b' && c1 == 'u' {
            proof { assert(s@ =~= "bu"@); }
            Some(Ticker::bu)
        } else if c0 == 'e' && c1 == 'g' {
            proof { assert(s@ =~= "eg"@); }
            Some(Ticker::eg)
        } else if c0 == 'M' && c1 == 'A' {
            proof { assert(s@ =~= "MA"@); }
            Some(Ticker::MA)
        } else if c0 == 'p' && c1 == 'p' {
            proof { assert(s@ =~= "pp"@); }
            Some(Ticker::pp)
        } else if c0 == 'T' && c1 == 'A' {
            proof { assert(s@ =~= "TA"@); }
            Some(Ticker::TA)
        } else if c0 == 'r' && c1 == 'u' {
            proof { assert(s@ =~= "ru"@); }
            Some(Ticker::ru)
        } else if c0 == 'e' && c1 == 'b' {
            proof { assert(s@ =~= "eb"@); }
            Some(Ticker::eb)
        } else if c0 == 'P' && c1 == 'F' {
            proof { assert(s@ =~= "PF"@); }
            Some(Ticker::PF)
        } else if c0 == 'S' && c1 == 'A' {
            proof { assert(s@ =~= "SA"@); }
            Some(Ticker::SA)
        } else if c0 == 'j' && c1 == 'm' {
            proof { assert(s@ =~= "jm"@); }
            Some(Ticker::jm)
        } else if c0 == 'F' && c1 == 'G' {
            proof { assert(s@ =~= "FG"@); }
            Some(Ticker::FG)
        } else if c0 == 'h' && c1 == 'c' {
            proof { assert(s@ =~= "hc"@); }
            Some(Ticker::hc)
        } else if c0 == 'S' && c1 == 'M' {
            proof { assert(s@ =~= "SM"@); }
            Some(Ticker::SM)
        } else if c0 == 'r' && c1 == 'b' {
            proof { assert(s@ =~= "rb"@); }
            Some(Ticker::rb)
        } else if c0 == 'S' && c1 == 'F' {
            proof { assert(s@ =~= "SF"@); }
            Some(Ticker::SF)
        } else if c0 == 'Z' && c1 == 'C' {
            proof { assert(s@ =~= "ZC"@); }
            Some(Ticker::ZC)
        } else if c0 == 's' && c1 == 's' {
            proof { assert(s@ =~= "ss"@); }
            Some(Ticker::ss)
        } else if c0 == 'O' && c1 == 'I' {
            proof { assert(s@ =~= "OI"@); }
            Some(Ticker::OI)
        } else if c0 == 'f' && c1 == 'u' {
            proof { assert(s@ =~= "fu"@); }
            Some(Ticker::fu)
        } else if c0 == 's' && c1 == 'c' {
            proof { assert(s@ =~= "sc"@); }
            Some(Ticker::sc)
        } else if c0 == 'p' && c1 == 'g' {
            proof { assert(s@ =~= "pg"@); }
            Some(Ticker::pg)
        } else if c0 == 'a' && c1 == 'u' {
            proof { assert(s@ =~= "au"@); }
            Some(Ticker::au)
        } else if c0 == 'a' && c1 == 'g' {
            proof { assert(s@ =~= "ag"@); }
            Some(Ticker::ag)
        } else if c0 == 'j' && c1 == 'd' {
            proof { assert(s@ =~= "jd"@); }
            Some(Ticker::jd)
        } else if c0 == 'R' && c1 == 'M' {
            proof { assert(s@ =~= "RM"@); }
            Some(Ticker::RM)
        } else if c0 == 'A' && c1 == 'P' {
            proof { assert(s@ =~= "AP"@); }
            Some(Ticker::AP)
        } else if c0 == 'S' && c1 == 'R' {
            proof { assert(s@ =~= "SR"@); }
            Some(Ticker::SR)
        } else if c0 == 's' && c1 == 'p' {
            proof { assert(s@ =~= "sp"@); }
            Some(Ticker::sp)
        } else if c0 == 'C' && c1 == 'F' {
            proof { assert(s@ =~= "CF"@); }
            Some(Ticker::CF)
        } else if c0 == 'c' && c1 == 's' {
            proof { assert(s@ =~= "cs"@); }
            Some(Ticker::cs)
        } else if c0 == 'S' && c1 == 'H' {
            proof { assert(s@ =~= "SH"@); }
            Some(Ticker::SH)
        } else if c0 == 'U' && c1 == 'R' {
            proof { assert(s@ =~= "UR"@); }
            Some(Ticker::UR)
        } else if c0 == 'I' && c1 == 'F' {
            proof { assert(s@ =~= "IF"@); }
            Some(Ticker::IF)
        } else {
            None
        }
    } else {
        None
    }
}

/// Anything that can name a ticker.
pub trait IntoTicker {
    /// The wire name this value carries.
    spec fn ticker_name(self) -> Seq<char>;

    /// The ticker the name denotes, if any.
    fn into_ticker(self) -> (r: Option<Ticker>)
        ensures
            r == ticker_of_str(self.ticker_name()),
    ;
}

impl IntoTicker for &str {
    open spec fn ticker_name(self) -> Seq<char> {
        self@
    }

    fn into_ticker(self) -> (r: Option<Ticker>) {
        ticker_from_str(self)
    }
}

/// Which daily sessions a ticker trades.
#[derive(Clone, Copy, PartialEq, Eq, Structural, Debug)]
pub enum TradingPeriod {
    Light,
    LightNight,
    LightNightMorn,
}

/// The session pattern of each ticker.
pub open spec fn trading_period_of(t: Ticker) -> TradingPeriod {
    match t {
        Ticker::al => TradingPeriod::LightNightMorn,
        Ticker::cu => TradingPeriod::LightNightMorn,
        Ticker::ni => TradingPeriod::LightNightMorn,
        Ticker::sn => TradingPeriod::LightNightMorn,
        Ticker::zn => TradingPeriod::LightNightMorn,
        Ticker::bu => TradingPeriod::LightNight,
        Ticker::eg => TradingPeriod::LightNight,
        Ticker::MA => TradingPeriod::LightNight,
        Ticker::l => TradingPeriod::LightNight,
        Ticker::pp => TradingPeriod::LightNight,
        Ticker::TA => TradingPeriod::LightNight,
        Ticker::v => TradingPeriod::LightNight,
        Ticker::ru => TradingPeriod::LightNight,
        Ticker::eb => TradingPeriod::LightNight,
        Ticker::PF => TradingPeriod::LightNight,
        Ticker::SA => TradingPeriod::LightNight,
        Ticker::jm => TradingPeriod::LightNight,
        Ticker::FG => TradingPeriod::LightNight,
        Ticker::hc => TradingPeriod::LightNight,
        Ticker::i => TradingPeriod::LightNight,
        Ticker::j => TradingPeriod::LightNight,
        Ticker::SM => TradingPeriod::Light,
        Ticker::rb => TradingPeriod::LightNight,
        Ticker::SF => TradingPeriod::Light,
        Ticker::ZC => TradingPeriod::Light,
        Ticker::ss => TradingPeriod::LightNight,
        Ticker::p => TradingPeriod::LightNight,
        Ticker::y => TradingPeriod::LightNight,
        Ticker::OI => TradingPeriod::LightNight,
        Ticker::fu => TradingPeriod::LightNight,
        Ticker::sc => TradingPeriod::LightNightMorn,
        Ticker::pg => TradingPeriod::LightNight,
        Ticker::au => TradingPeriod::LightNightMorn,
        Ticker::ag => TradingPeriod::LightNightMorn,
        Ticker::m => TradingPeriod::LightNight,
        Ticker::a => TradingPeriod::LightNight,
        Ticker::jd => TradingPeriod::LightNight,
        Ticker::RM => TradingPeriod::LightNight,
        Ticker::AP => TradingPeriod::Light,
        Ticker::SR => TradingPeriod::LightNight,
        Ticker::sp => TradingPeriod::LightNight,
        Ticker::CF => TradingPeriod::LightNight,
        Ticker::c => TradingPeriod::LightNight,
        Ticker::cs => TradingPeriod::LightNight,
        Ticker::SH => TradingPeriod::LightNight,
        Ticker::UR => TradingPeriod::LightNight,
        Ticker::IF => TradingPeriod::LightNight,
    }
}

impl From<Ticker> for TradingPeriod {
    fn from(value: Ticker) -> (r: TradingPeriod) {
        match value {
            Ticker::al => TradingPeriod::LightNightMorn,
            Ticker::cu => TradingPeriod::LightNightMorn,
            Ticker::ni => TradingPeriod::LightNightMorn,
            Ticker::sn => TradingPeriod::LightNightMorn,
            Ticker::zn => TradingPeriod::LightNightMorn,
            Ticker::bu => TradingPeriod::LightNight,
            Ticker::eg => TradingPeriod::LightNight,
            Ticker::MA => TradingPeriod::LightNight,
            Ticker::l => TradingPeriod::LightNight,
            Ticker::pp => TradingPeriod::LightNight,
            Ticker::TA => TradingPeriod::LightNight,
            Ticker::v => TradingPeriod::LightNight,
            Ticker::ru => TradingPeriod::LightNight,
            Ticker::eb => TradingPeriod::LightNight,
            Ticker::PF => TradingPeriod::LightNight,
            Ticker::SA => TradingPeriod::LightNight,
            Ticker::jm => TradingPeriod::LightNight,
            Ticker::FG => TradingPeriod::LightNight,
            Ticker::hc => TradingPeriod::LightNight,
            Ticker::i => TradingPeriod::LightNight,
            Ticker::j => TradingPeriod::LightNight,
            Ticker::SM => TradingPeriod::Light,
            Ticker::rb => TradingPeriod::LightNight,
            Ticker::SF => TradingPeriod::Light,
            Ticker::ZC => TradingPeriod::Light,
            Ticker::ss => TradingPeriod::LightNight,
            Ticker::p => TradingPeriod::LightNight,
            Ticker::y => TradingPeriod::LightNight,
            Ticker::OI => TradingPeriod::LightNight,
            Ticker::fu => TradingPeriod::LightNight,
            Ticker::sc => TradingPeriod::LightNightMorn,
            Ticker::pg => TradingPeriod::LightNight,
            Ticker::au => TradingPeriod::LightNightMorn,
            Ticker::ag => TradingPeriod::LightNightMorn,
            Ticker::m => TradingPeriod::LightNight,
            Ticker::a => TradingPeriod::LightNight,
            Ticker::jd => TradingPeriod::LightNight,
            Ticker::RM => TradingPeriod::LightNight,
            Ticker::AP => TradingPeriod::Light,
            Ticker::SR => TradingPeriod::LightNight,
            Ticker::sp => TradingPeriod::LightNight,
            Ticker::CF => TradingPeriod::LightNight,
            Ticker::c => TradingPeriod::LightNight,
            Ticker::cs => TradingPeriod::LightNight,
            Ticker::SH => TradingPeriod::LightNight,
            Ticker::UR => TradingPeriod::LightNight,
            Ticker::IF => TradingPeriod::LightNight,
        }
    }
}

impl vstd::std_specs::convert::FromSpecImpl<Ticker> for TradingPeriod {
    open spec fn obeys_from_spec() -> bool {
        true
    }

    open spec fn from_spec(t: Ticker) -> TradingPeriod {
        trading_period_of(t)
    }
}

impl TickerInfo {
    /// The contract value of one lot at a price, in the price's own
    /// fixed-point scale.
    pub fn multi(&self, price: i64) -> (r: i64)
        requires
            -4611686018427387903 <= self.volume_multiple * price <= 4611686018427387903,
        ensures
            r == self.volume_multiple * price,
    {
        self.volume_multiple * price
    }

    /// The commission charged for `num` lots at a price.
    pub fn comm(&self, price: i64, num: i64) -> (r: i64)
        requires
            -1000000000 <= price <= 1000000000,
            -100000 <= num <= 100000,
            0 <= self.volume_multiple <= 10000,
            (self.commission matches Commission::Fixed(x) ==> -1000000000 <= x <= 1000000000),
            (self.commission matches Commission::Proportional(x) ==> -10000 <= x <= 10000),
        ensures
            r == comm_of(*self, price, num),
    {
        match self.commission {
            Commission::Fixed(x) => {
                proof {
                    assert(-1000000000000000000 <= num as int * x as int <= 1000000000000000000)
                        by (nonlinear_arith)
                        requires -100000 <= num <= 100000, -1000000000 <= x <= 1000000000;
                    crate::util::lemma_div_bound(
                        num as int * x as int, 100, 10000000000000000);
                }
                let m: i128 = num as i128 * x as i128;
                let q = crate::util::div_floor_wide(m, 100);
                q as i64
            },
            Commission::Proportional(x) => {
                proof {
                    assert(-100000000000000 <= num as int * price as int <= 100000000000000)
                        by (nonlinear_arith)
                        requires -100000 <= num <= 100000, -1000000000 <= price <= 1000000000;
                    assert(
                        -1000000000000000000 <= (num as int * price as int) * self.volume_multiple as int
                            <= 1000000000000000000)
                        by (nonlinear_arith)
                        requires
                            -100000000000000 <= num as int * price as int <= 100000000000000,
                            0 <= self.volume_multiple <= 10000;
                    assert(
                        -10000000000000000000000 <= ((num as int * price as int) * self.volume_multiple as int) * x as int
                            <= 10000000000000000000000)
                        by (nonlinear_arith)
                        requires
                            -1000000000000000000 <= (num as int * price as int) * self.volume_multiple as int
                                <= 1000000000000000000,
                            -10000 <= x <= 10000;
                    crate::util::lemma_div_bound(
                        ((num as int * price as int) * self.volume_multiple as int) * x as int,
                        1000000, 10000000000000000);
                }
                let m: i128 = num as i128 * price as i128;
                let m2: i128 = m * self.volume_multiple as i128;
                let m3: i128 = m2 * x as i128;
                let q = crate::util::div_floor_wide(m3, 1000000);
                q as i64
            },
        }
    }

    /// The slippage cost of `num` lots, in the price's fixed-point scale.
    pub fn slip(&self, num: i64) -> (r: i64)
        requires
            -100000 <= num <= 100000,
            0 <= self.volume_multiple <= 10000,
            0 <= self.slippage <= 10000,
        ensures
            r == slip_of(*self, num),
    {
        proof {
            assert(-1000000000 <= num as int * self.volume_multiple as int <= 1000000000)
                by (nonlinear_arith)
                requires -100000 <= num <= 100000, 0 <= self.volume_multiple <= 10000;
            assert(
                -10000000000000 <= (num as int * self.volume_multiple as int) * self.slippage as int
                    <= 10000000000000)
                by (nonlinear_arith)
                requires
                    -1000000000 <= num as int * self.volume_multiple as int <= 1000000000,
                    0 <= self.slippage <= 10000;
            crate::util::lemma_div_bound(
                (num as int * self.volume_multiple as int) * self.slippage as int, 10, 1000000000000);
        }
        let m: i128 = num as i128 * self.volume_multiple as i128;
        let m2: i128 = m * self.slippage as i128;
        let q = crate::util::div_floor_wide(m2, 10);
        q as i64
    }

    /// The money traded by `num` lots at a price.
    pub fn trade_money(&self, num: i64, price: i64) -> (r: i64)
        requires
            -100000 <= num <= 100000,
            -1000000000 <= price <= 1000000000,
            0 <= self.volume_multiple <= 10000,
        ensures
            r == num * price * self.volume_multiple,
    {
        proof {
            assert(-100000000000000 <= num as int * price as int <= 100000000000000)
                by (nonlinear_arith)
                requires -100000 <= num <= 100000, -1000000000 <= price <= 1000000000;
            assert(
                -1000000000000000000 <= (num as int * price as int) * self.volume_multiple as int
                    <= 1000000000000000000)
                by (nonlinear_arith)
                requires
                    -100000000000000 <= num as int * price as int <= 100000000000000,
                    0 <= self.volume_multiple <= 10000;
        }
        let m: i128 = num as i128 * price as i128;
        let m2: i128 = m * self.volume_multiple as i128;
        m2 as i64
    }
}

/// What `TickerInfo::comm` charges: lots times the fixed per-lot amount,
/// in hundredth units, or traded money times the proportional rate in
/// millionths, both rounded towards minus infinity.
pub open spec fn comm_of(info: TickerInfo, price: i64, num: i64) -> int {
    match info.commission {
        Commission::Fixed(x) => (num * x) / 100,
        Commission::Proportional(x) => (num * price * info.volume_multiple * x) / 1000000,
    }
}

/// What `TickerInfo::slip` charges: lots times the contract multiplier
/// times the slippage, in tenths, rounded towards minus infinity.
pub open spec fn slip_of(info: TickerInfo, num: i64) -> int {
    (num * info.volume_multiple * info.slippage) / 10
}

/// Every table entry lies in the ranges the dataset arithmetic relies
/// on.
pub proof fn lemma_info_ranges(t: Ticker)
    ensures
        0 <= info_of(t).price_tick <= 100000,
        0 <= info_of(t).volume_multiple <= 10000,
        0 <= info_of(t).slippage <= 10000,
        (info_of(t).commission matches Commission::Fixed(x) ==> 0 <= x <= 1000000000),
        (info_of(t).commission matches Commission::Proportional(x) ==> 0 <= x <= 10000),
{
    match t {
        Ticker::al => {},
        Ticker::cu => {},
        Ticker::ni => {},
        Ticker::sn => {},
        Ticker::zn => {},
        Ticker::bu => {},
        Ticker::eg => {},
        Ticker::MA => {},
        Ticker::l => {},
        Ticker::pp => {},
        Ticker::TA => {},
        Ticker::v => {},
        Ticker::ru => {},
        Ticker::eb => {},
        Ticker::PF => {},
        Ticker::SA => {},
        Ticker::jm => {},
        Ticker::FG => {},
        Ticker::hc => {},
        Ticker::i => {},
        Ticker::j => {},
        Ticker::SM => {},
        Ticker::rb => {},
        Ticker::SF => {},
        Ticker::ZC => {},
        Ticker::ss => {},
        Ticker::p => {},
        Ticker::y => {},
        Ticker::OI => {},
        Ticker::fu => {},
        Ticker::sc => {},
        Ticker::pg => {},
        Ticker::au => {},
        Ticker::ag => {},
        Ticker::m => {},
        Ticker::a => {},
        Ticker::jd => {},
        Ticker::RM => {},
        Ticker::AP => {},
        Ticker::SR => {},
        Ticker::sp => {},
        Ticker::CF => {},
        Ticker::c => {},
        Ticker::cs => {},
        Ticker::SH => {},
        Ticker::UR => {},
        Ticker::IF => {},
    }
}

/// Whether a character is an ASCII digit.
pub open spec fn is_digit_char(c: char) -> bool {
    48 <= c as u32 <= 57
}

/// Index of the first digit at or after `i`, or the length if none.
pub open spec fn first_digit_idx(s: Seq<char>, i: int) -> int
    recommends
        0 <= i <= s.len(),
    decreases s.len() - i,
{
    if i < 0 || i >= s.len() {
        s.len() as int
    } else if is_digit_char(s[i]) {
        i
    } else {
        first_digit_idx(s, i + 1)
    }
}

/// End of the digit run starting at `i`: the first non-digit index at or
/// after `i`, or the length.
pub open spec fn digit_run_end(s: Seq<char>, i: int) -> int
    recommends
        0 <= i <= s.len(),
    decreases s.len() - i,
{
    if i < 0 || i >= s.len() {
        s.len() as int
    } else if !is_digit_char(s[i]) {
        i
    } else {
        digit_run_end(s, i + 1)
    }
}

/// The number a digit string denotes.
pub open spec fn digits_val(s: Seq<char>) -> int
    decreases s.len(),
{
    if s.len() == 0 {
        0
    } else {
        digits_val(s.drop_last()) * 10 + (s.last() as u32 - 48)
    }
}

/// A digit string denotes a non-negative number.
proof fn lemma_digits_val_nonneg(s: Seq<char>)
    requires
        forall|j: int| 0 <= j < s.len() ==> is_digit_char(#[trigger] s[j]),
    ensures
        digits_val(s) >= 0,
    decreases s.len(),
{
    if s.len() > 0 {
        lemma_digits_val_nonneg(s.drop_last());
        assert(is_digit_char(s[s.len() - 1]));
    }
}

/// What `extract_ticker` finds in a contract name: the ticker named by
/// everything before the first digit run, and that run's value.  Nothing
/// when the name holds no digit, the prefix names no ticker, or the run
/// overflows the contract number.
pub open spec fn extract_ticker_spec(s: Seq<char>) -> Option<(Ticker, i32)> {
    let st = first_digit_idx(s, 0);
    if st >= s.len() {
        None
    } else {
        let en = digit_run_end(s, st);
        match ticker_of_str(s.subrange(0, st)) {
            None => None,
            Some(tk) => {
                let v = digits_val(s.subrange(st, en));
                if v <= i32::MAX {
                    Some((tk, v as i32))
                } else {
                    None
                }
            },
        }
    }
}

/// Anything that can carry a contract name such as a ticker followed by
/// an expiry number.
pub trait ExtractTicker {
    /// The contract name this value carries.
    spec fn contract_name(self) -> Seq<char>;

    /// The ticker and contract number of the name, if any.
    fn extract_ticker(self) -> (r: Option<(Ticker, i32)>)
        ensures
            r == extract_ticker_spec(self.contract_name()),
    ;
}

impl ExtractTicker for &str {
    open spec fn contract_name(self) -> Seq<char> {
        self@
    }

    fn extract_ticker(self) -> (r: Option<(Ticker, i32)>) {
        let n = self.unicode_len();
        let mut st: usize = 0;
        loop
            invariant_except_break
                n == self@.len(),
                st <= n,
                first_digit_idx(self@, 0) == first_digit_idx(self@, st as int),
            ensures
                n == self@.len(),
                st <= n,
                first_digit_idx(self@, 0) == st as int,
                st < n ==> is_digit_char(self@[st as int]),
            decreases n - st,
        {
            if st >= n {
                proof {
                    assert(first_digit_idx(self@, st as int) == n as int);
                }
                break;
            }
            let c = self.get_char(st);
            if (c as u32) >= 48 && (c as u32) <= 57 {
                proof {
                    assert(first_digit_idx(self@, st as int) == st as int);
                }
                break;
            }
            st = st + 1;
        }
        if st >= n {
            return None;
        }
        let mut en: usize = st;
        let mut acc: i64 = 0;
        loop
            invariant_except_break
                n == self@.len(),
                st <= en <= n,
                forall|j: int| st <= j < en ==> is_digit_char(#[trigger] self@[j]),
                digit_run_end(self@, st as int) == digit_run_end(self@, en as int),
                0 <= acc <= 2147483648,
                acc == (if digits_val(self@.subrange(st as int, en as int)) <= 2147483648 {
                    digits_val(self@.subrange(st as int, en as int))
                } else {
                    2147483648int
                }),
                digits_val(self@.subrange(st as int, en as int)) >= acc,
            ensures
                n == self@.len(),
                st <= en <= n,
                digit_run_end(self@, st as int) == en as int,
                0 <= acc <= 2147483648,
                acc == (if digits_val(self@.subrange(st as int, en as int)) <= 2147483648 {
                    digits_val(self@.subrange(st as int, en as int))
                } else {
                    2147483648int
                }),
                digits_val(self@.subrange(st as int, en as int)) >= acc,
            decreases n - en,
        {
            if en >= n {
                proof {
                    assert(digit_run_end(self@, en as int) == n as int);
                }
                break;
            }
            let c = self.get_char(en);
            if !((c as u32) >= 48 && (c as u32) <= 57) {
                proof {
                    assert(digit_run_end(self@, en as int) == en as int);
                }
                break;
            }
            let ghost pre = self@.subrange(st as int, en as int);
            let d: i64 = (c as u32) as i64 - 48;
            proof {
                assert(self@.subrange(st as int, en as int + 1).drop_last() =~= pre);
                assert(self@.subrange(st as int, en as int + 1).last() == self@[en as int]);
                assert forall|j: int| 0 <= j < pre.len() implies is_digit_char(#[trigger] pre[j]) by {
                    assert(pre[j] == self@[st + j]);
                }
                lemma_digits_val_nonneg(pre);
                assert(digits_val(pre) * 10 >= digits_val(pre)) by (nonlinear_arith)
                    requires digits_val(pre) >= 0;
                if digits_val(pre) > 2147483648 {
                    assert(digits_val(pre) * 10 + (self@[en as int] as u32 - 48) > 2147483648) by (nonlinear_arith)
                        requires digits_val(pre) > 2147483648;
                }
            }
            acc = if acc > 214748364 || (acc == 214748364 && d > 8) {
                2147483648
            } else {
                acc * 10 + d
            };
            proof {
                let cur = digits_val(self@.subrange(st as int, en as int + 1));
                if digits_val(pre) <= 2147483648 {
                    assert(cur == digits_val(pre) * 10 + (self@[en as int] as u32 - 48));
                    if digits_val(pre) > 214748364 || (digits_val(pre) == 214748364 && self@[en as int] as u32 - 48 > 8) {
                        assert(cur > 2147483648) by (nonlinear_arith)
                            requires
                                cur == digits_val(pre) * 10 + (self@[en as int] as u32 - 48),
                                digits_val(pre) > 214748364
                                    || (digits_val(pre) == 214748364 && self@[en as int] as u32 - 48 > 8),
                                digits_val(pre) >= 0,
                                0 <= self@[en as int] as u32 - 48 <= 9;
                    }
                }
            }
            en = en + 1;
        }
        let prefix = self.substring_char(0, st);
        let tk = ticker_from_str(prefix);
        match tk {
            None => None,
            Some(t) => {
                if acc <= 2147483647 {
                    Some((t, acc as i32))
                } else {
                    None
                }
            },
        }
    }
}

} // verus!
