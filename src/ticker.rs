//! The closed set of tradable ticker symbols, each with a fixed position.
//!
//! The position of a ticker is what the symbol sets of subscriptions are
//! indexed by, so that a membership test costs one vector lookup.
use vstd::prelude::*;

verus! {

/// Ticker symbols known to the quote service; `UNKNOWN` stands for input
/// that names none of them.
#[allow(non_camel_case_types, clippy::upper_case_acronyms)]
#[derive(Clone, Copy, Debug, PartialEq, Eq, Hash, Structural)]
pub enum Ticker {
    AAPL,
    MSFT,
    GOOGL,
    AMZN,
    NVDA,
    META,
    TSLA,
    JPM,
    JNJ,
    V,
    PG,
    UNH,
    HD,
    DIS,
    PYPL,
    NFLX,
    ADBE,
    CRM,
    INTC,
    CSCO,
    PFE,
    ABT,
    TMO,
    ABBV,
    LLY,
    PEP,
    COST,
    TXN,
    AVGO,
    ACN,
    QCOM,
    DHR,
    MDT,
    NKE,
    UPS,
    RTX,
    HON,
    ORCL,
    LIN,
    AMGN,
    LOW,
    SBUX,
    SPGI,
    INTU,
    ISRG,
    T,
    BMY,
    DE,
    PLD,
    CI,
    CAT,
    GS,
    UNP,
    AMT,
    AXP,
    MS,
    BLK,
    GE,
    SYK,
    GILD,
    MMM,
    MO,
    LMT,
    FISV,
    ADI,
    BKNG,
    C,
    SO,
    NEE,
    ZTS,
    TGT,
    DUK,
    ICE,
    BDX,
    PNC,
    CMCSA,
    SCHW,
    MDLZ,
    TJX,
    USB,
    CL,
    EMR,
    APD,
    COF,
    FDX,
    AON,
    WM,
    ECL,
    ITW,
    VRTX,
    D,
    NSC,
    PGR,
    ETN,
    FIS,
    PSA,
    KLAC,
    MCD,
    ADP,
    APTV,
    AEP,
    MCO,
    SHW,
    DD,
    ROP,
    SLB,
    HUM,
    BSX,
    NOC,
    EW,
    UNKNOWN,
}

/// How many tickers there are, `UNKNOWN` included.
pub const TICKER_COUNT: usize = 111;

/// The position of a ticker in the enumeration.
pub open spec fn ticker_index(t: Ticker) -> nat {
    match t {
        Ticker::AAPL => 0,
        Ticker::MSFT => 1,
        Ticker::GOOGL => 2,
        Ticker::AMZN => 3,
        Ticker::NVDA => 4,
        Ticker::META => 5,
        Ticker::TSLA => 6,
        Ticker::JPM => 7,
        Ticker::JNJ => 8,
        Ticker::V => 9,
        Ticker::PG => 10,
        Ticker::UNH => 11,
        Ticker::HD => 12,
        Ticker::DIS => 13,
        Ticker::PYPL => 14,
        Ticker::NFLX => 15,
        Ticker::ADBE => 16,
        Ticker::CRM => 17,
        Ticker::INTC => 18,
        Ticker::CSCO => 19,
        Ticker::PFE => 20,
        Ticker::ABT => 21,
        Ticker::TMO => 22,
        Ticker::ABBV => 23,
        Ticker::LLY => 24,
        Ticker::PEP => 25,
        Ticker::COST => 26,
        Ticker::TXN => 27,
        Ticker::AVGO => 28,
        Ticker::ACN => 29,
        Ticker::QCOM => 30,
        Ticker::DHR => 31,
        Ticker::MDT => 32,
        Ticker::NKE => 33,
        Ticker::UPS => 34,
        Ticker::RTX => 35,
        Ticker::HON => 36,
        Ticker::ORCL => 37,
        Ticker::LIN => 38,
        Ticker::AMGN => 39,
        Ticker::LOW => 40,
        Ticker::SBUX => 41,
        Ticker::SPGI => 42,
        Ticker::INTU => 43,
        Ticker::ISRG => 44,
        Ticker::T => 45,
        Ticker::BMY => 46,
        Ticker::DE => 47,
        Ticker::PLD => 48,
        Ticker::CI => 49,
        Ticker::CAT => 50,
        Ticker::GS => 51,
        Ticker::UNP => 52,
        Ticker::AMT => 53,
        Ticker::AXP => 54,
        Ticker::MS => 55,
        Ticker::BLK => 56,
        Ticker::GE => 57,
        Ticker::SYK => 58,
        Ticker::GILD => 59,
        Ticker::MMM => 60,
        Ticker::MO => 61,
        Ticker::LMT => 62,
        Ticker::FISV => 63,
        Ticker::ADI => 64,
        Ticker::BKNG => 65,
        Ticker::C => 66,
        Ticker::SO => 67,
        Ticker::NEE => 68,
        Ticker::ZTS => 69,
        Ticker::TGT => 70,
        Ticker::DUK => 71,
        Ticker::ICE => 72,
        Ticker::BDX => 73,
        Ticker::PNC => 74,
        Ticker::CMCSA => 75,
        Ticker::SCHW => 76,
        Ticker::MDLZ => 77,
        Ticker::TJX => 78,
        Ticker::USB => 79,
        Ticker::CL => 80,
        Ticker::EMR => 81,
        Ticker::APD => 82,
        Ticker::COF => 83,
        Ticker::FDX => 84,
        Ticker::AON => 85,
        Ticker::WM => 86,
        Ticker::ECL => 87,
        Ticker::ITW => 88,
        Ticker::VRTX => 89,
        Ticker::D => 90,
        Ticker::NSC => 91,
        Ticker::PGR => 92,
        Ticker::ETN => 93,
        Ticker::FIS => 94,
        Ticker::PSA => 95,
        Ticker::KLAC => 96,
        Ticker::MCD => 97,
        Ticker::ADP => 98,
        Ticker::APTV => 99,
        Ticker::AEP => 100,
        Ticker::MCO => 101,
        Ticker::SHW => 102,
        Ticker::DD => 103,
        Ticker::ROP => 104,
        Ticker::SLB => 105,
        Ticker::HUM => 106,
        Ticker::BSX => 107,
        Ticker::NOC => 108,
        Ticker::EW => 109,
        Ticker::UNKNOWN => 110,
    }
}

/// The ticker at a position; positions past the end give `UNKNOWN`.
pub open spec fn ticker_at(i: nat) -> Ticker {
    if i == 0 {
        Ticker::AAPL
    } else if i == 1 {
        Ticker::MSFT
    } else if i == 2 {
        Ticker::GOOGL
    } else if i == 3 {
        Ticker::AMZN
    } else if i == 4 {
        Ticker::NVDA
    } else if i == 5 {
        Ticker::META
    } else if i == 6 {
        Ticker::TSLA
    } else if i == 7 {
        Ticker::JPM
    } else if i == 8 {
        Ticker::JNJ
    } else if i == 9 {
        Ticker::V
    } else if i == 10 {
        Ticker::PG
    } else if i == 11 {
        Ticker::UNH
    } else if i == 12 {
        Ticker::HD
    } else if i == 13 {
        Ticker::DIS
    } else if i == 14 {
        Ticker::PYPL
    } else if i == 15 {
        Ticker::NFLX
    } else if i == 16 {
        Ticker::ADBE
    } else if i == 17 {
        Ticker::CRM
    } else if i == 18 {
        Ticker::INTC
    } else if i == 19 {
        Ticker::CSCO
    } else if i == 20 {
        Ticker::PFE
    } else if i == 21 {
        Ticker::ABT
    } else if i == 22 {
        Ticker::TMO
    } else if i == 23 {
        Ticker::ABBV
    } else if i == 24 {
        Ticker::LLY
    } else if i == 25 {
        Ticker::PEP
    } else if i == 26 {
        Ticker::COST
    } else if i == 27 {
        Ticker::TXN
    } else if i == 28 {
        Ticker::AVGO
    } else if i == 29 {
        Ticker::ACN
    } else if i == 30 {
        Ticker::QCOM
    } else if i == 31 {
        Ticker::DHR
    } else if i == 32 {
        Ticker::MDT
    } else if i == 33 {
        Ticker::NKE
    } else if i == 34 {
        Ticker::UPS
    } else if i == 35 {
        Ticker::RTX
    } else if i == 36 {
        Ticker::HON
    } else if i == 37 {
        Ticker::ORCL
    } else if i == 38 {
        Ticker::LIN
    } else if i == 39 {
        Ticker::AMGN
    } else if i == 40 {
        Ticker::LOW
    } else if i == 41 {
        Ticker::SBUX
    } else if i == 42 {
        Ticker::SPGI
    } else if i == 43 {
        Ticker::INTU
    } else if i == 44 {
        Ticker::ISRG
    } else if i == 45 {
        Ticker::T
    } else if i == 46 {
        Ticker::BMY
    } else if i == 47 {
        Ticker::DE
    } else if i == 48 {
        Ticker::PLD
    } else if i == 49 {
        Ticker::CI
    } else if i == 50 {
        Ticker::CAT
    } else if i == 51 {
        Ticker::GS
    } else if i == 52 {
        Ticker::UNP
    } else if i == 53 {
        Ticker::AMT
    } else if i == 54 {
        Ticker::AXP
    } else if i == 55 {
        Ticker::MS
    } else if i == 56 {
        Ticker::BLK
    } else if i == 57 {
        Ticker::GE
    } else if i == 58 {
        Ticker::SYK
    } else if i == 59 {
        Ticker::GILD
    } else if i == 60 {
        Ticker::MMM
    } else if i == 61 {
        Ticker::MO
    } else if i == 62 {
        Ticker::LMT
    } else if i == 63 {
        Ticker::FISV
    } else if i == 64 {
        Ticker::ADI
    } else if i == 65 {
        Ticker::BKNG
    } else if i == 66 {
        Ticker::C
    } else if i == 67 {
        Ticker::SO
    } else if i == 68 {
        Ticker::NEE
    } else if i == 69 {
        Ticker::ZTS
    } else if i == 70 {
        Ticker::TGT
    } else if i == 71 {
        Ticker::DUK
    } else if i == 72 {
        Ticker::ICE
    } else if i == 73 {
        Ticker::BDX
    } else if i == 74 {
        Ticker::PNC
    } else if i == 75 {
        Ticker::CMCSA
    } else if i == 76 {
        Ticker::SCHW
    } else if i == 77 {
        Ticker::MDLZ
    } else if i == 78 {
        Ticker::TJX
    } else if i == 79 {
        Ticker::USB
    } else if i == 80 {
        Ticker::CL
    } else if i == 81 {
        Ticker::EMR
    } else if i == 82 {
        Ticker::APD
    } else if i == 83 {
        Ticker::COF
    } else if i == 84 {
        Ticker::FDX
    } else if i == 85 {
        Ticker::AON
    } else if i == 86 {
        Ticker::WM
    } else if i == 87 {
        Ticker::ECL
    } else if i == 88 {
        Ticker::ITW
    } else if i == 89 {
        Ticker::VRTX
    } else if i == 90 {
        Ticker::D
    } else if i == 91 {
        Ticker::NSC
    } else if i == 92 {
        Ticker::PGR
    } else if i == 93 {
        Ticker::ETN
    } else if i == 94 {
        Ticker::FIS
    } else if i == 95 {
        Ticker::PSA
    } else if i == 96 {
        Ticker::KLAC
    } else if i == 97 {
        Ticker::MCD
    } else if i == 98 {
        Ticker::ADP
    } else if i == 99 {
        Ticker::APTV
    } else if i == 100 {
        Ticker::AEP
    } else if i == 101 {
        Ticker::MCO
    } else if i == 102 {
        Ticker::SHW
    } else if i == 103 {
        Ticker::DD
    } else if i == 104 {
        Ticker::ROP
    } else if i == 105 {
        Ticker::SLB
    } else if i == 106 {
        Ticker::HUM
    } else if i == 107 {
        Ticker::BSX
    } else if i == 108 {
        Ticker::NOC
    } else if i == 109 {
        Ticker::EW
    } else {
        Ticker::UNKNOWN
    }
}

/// The tickers with the deeper volume tier.
pub open spec fn is_liquid_ticker(t: Ticker) -> bool {
    t == Ticker::AAPL || t == Ticker::MSFT || t == Ticker::TSLA
}

/// Every ticker has a position below `TICKER_COUNT`, and the position
/// leads back to the ticker: distinct tickers have distinct positions.
pub proof fn lemma_ticker_index(t: Ticker)
    ensures
        ticker_index(t) < TICKER_COUNT,
        ticker_at(ticker_index(t)) == t,
{
}

/// Two tickers with one position are the same ticker.
pub proof fn lemma_ticker_index_injective(a: Ticker, b: Ticker)
    ensures
        ticker_index(a) == ticker_index(b) ==> a == b,
{
    lemma_ticker_index(a);
    lemma_ticker_index(b);
}

impl Ticker {
    /// The position of this ticker in the enumeration.
    pub fn index(&self) -> (r: usize)
        ensures
            r == ticker_index(*self),
            r < TICKER_COUNT,
    {
        match self {
            Ticker::AAPL => 0,
            Ticker::MSFT => 1,
            Ticker::GOOGL => 2,
            Ticker::AMZN => 3,
            Ticker::NVDA => 4,
            Ticker::META => 5,
            Ticker::TSLA => 6,
            Ticker::JPM => 7,
            Ticker::JNJ => 8,
            Ticker::V => 9,
            Ticker::PG => 10,
            Ticker::UNH => 11,
            Ticker::HD => 12,
            Ticker::DIS => 13,
            Ticker::PYPL => 14,
            Ticker::NFLX => 15,
            Ticker::ADBE => 16,
            Ticker::CRM => 17,
            Ticker::INTC => 18,
            Ticker::CSCO => 19,
            Ticker::PFE => 20,
            Ticker::ABT => 21,
            Ticker::TMO => 22,
            Ticker::ABBV => 23,
            Ticker::LLY => 24,
            Ticker::PEP => 25,
            Ticker::COST => 26,
            Ticker::TXN => 27,
            Ticker::AVGO => 28,
            Ticker::ACN => 29,
            Ticker::QCOM => 30,
            Ticker::DHR => 31,
            Ticker::MDT => 32,
            Ticker::NKE => 33,
            Ticker::UPS => 34,
            Ticker::RTX => 35,
            Ticker::HON => 36,
            Ticker::ORCL => 37,
            Ticker::LIN => 38,
            Ticker::AMGN => 39,
            Ticker::LOW => 40,
            Ticker::SBUX => 41,
            Ticker::SPGI => 42,
            Ticker::INTU => 43,
            Ticker::ISRG => 44,
            Ticker::T => 45,
            Ticker::BMY => 46,
            Ticker::DE => 47,
            Ticker::PLD => 48,
            Ticker::CI => 49,
            Ticker::CAT => 50,
            Ticker::GS => 51,
            Ticker::UNP => 52,
            Ticker::AMT => 53,
            Ticker::AXP => 54,
            Ticker::MS => 55,
            Ticker::BLK => 56,
            Ticker::GE => 57,
            Ticker::SYK => 58,
            Ticker::GILD => 59,
            Ticker::MMM => 60,
            Ticker::MO => 61,
            Ticker::LMT => 62,
            Ticker::FISV => 63,
            Ticker::ADI => 64,
            Ticker::BKNG => 65,
            Ticker::C => 66,
            Ticker::SO => 67,
            Ticker::NEE => 68,
            Ticker::ZTS => 69,
            Ticker::TGT => 70,
            Ticker::DUK => 71,
            Ticker::ICE => 72,
            Ticker::BDX => 73,
            Ticker::PNC => 74,
            Ticker::CMCSA => 75,
            Ticker::SCHW => 76,
            Ticker::MDLZ => 77,
            Ticker::TJX => 78,
            Ticker::USB => 79,
            Ticker::CL => 80,
            Ticker::EMR => 81,
            Ticker::APD => 82,
            Ticker::COF => 83,
            Ticker::FDX => 84,
            Ticker::AON => 85,
            Ticker::WM => 86,
            Ticker::ECL => 87,
            Ticker::ITW => 88,
            Ticker::VRTX => 89,
            Ticker::D => 90,
            Ticker::NSC => 91,
            Ticker::PGR => 92,
            Ticker::ETN => 93,
            Ticker::FIS => 94,
            Ticker::PSA => 95,
            Ticker::KLAC => 96,
            Ticker::MCD => 97,
            Ticker::ADP => 98,
            Ticker::APTV => 99,
            Ticker::AEP => 100,
            Ticker::MCO => 101,
            Ticker::SHW => 102,
            Ticker::DD => 103,
            Ticker::ROP => 104,
            Ticker::SLB => 105,
            Ticker::HUM => 106,
            Ticker::BSX => 107,
            Ticker::NOC => 108,
            Ticker::EW => 109,
            Ticker::UNKNOWN => 110,
        }
    }

    /// The ticker at position `i`, if there is one.
    pub fn from_index(i: usize) -> (r: Option<Ticker>)
        ensures
            i < TICKER_COUNT ==> r == Some(ticker_at(i as nat)),
            i >= TICKER_COUNT ==> r is None,
    {
        match i {
            0 => Some(Ticker::AAPL),
            1 => Some(Ticker::MSFT),
            2 => Some(Ticker::GOOGL),
            3 => Some(Ticker::AMZN),
            4 => Some(Ticker::NVDA),
            5 => Some(Ticker::META),
            6 => Some(Ticker::TSLA),
            7 => Some(Ticker::JPM),
            8 => Some(Ticker::JNJ),
            9 => Some(Ticker::V),
            10 => Some(Ticker::PG),
            11 => Some(Ticker::UNH),
            12 => Some(Ticker::HD),
            13 => Some(Ticker::DIS),
            14 => Some(Ticker::PYPL),
            15 => Some(Ticker::NFLX),
            16 => Some(Ticker::ADBE),
            17 => Some(Ticker::CRM),
            18 => Some(Ticker::INTC),
            19 => Some(Ticker::CSCO),
            20 => Some(Ticker::PFE),
            21 => Some(Ticker::ABT),
            22 => Some(Ticker::TMO),
            23 => Some(Ticker::ABBV),
            24 => Some(Ticker::LLY),
            25 => Some(Ticker::PEP),
            26 => Some(Ticker::COST),
            27 => Some(Ticker::TXN),
            28 => Some(Ticker::AVGO),
            29 => Some(Ticker::ACN),
            30 => Some(Ticker::QCOM),
            31 => Some(Ticker::DHR),
            32 => Some(Ticker::MDT),
            33 => Some(Ticker::NKE),
            34 => Some(Ticker::UPS),
            35 => Some(Ticker::RTX),
            36 => Some(Ticker::HON),
            37 => Some(Ticker::ORCL),
            38 => Some(Ticker::LIN),
            39 => Some(Ticker::AMGN),
            40 => Some(Ticker::LOW),
            41 => Some(Ticker::SBUX),
            42 => Some(Ticker::SPGI),
            43 => Some(Ticker::INTU),
            44 => Some(Ticker::ISRG),
            45 => Some(Ticker::T),
            46 => Some(Ticker::BMY),
            47 => Some(Ticker::DE),
            48 => Some(Ticker::PLD),
            49 => Some(Ticker::CI),
            50 => Some(Ticker::CAT),
            51 => Some(Ticker::GS),
            52 => Some(Ticker::UNP),
            53 => Some(Ticker::AMT),
            54 => Some(Ticker::AXP),
            55 => Some(Ticker::MS),
            56 => Some(Ticker::BLK),
            57 => Some(Ticker::GE),
            58 => Some(Ticker::SYK),
            59 => Some(Ticker::GILD),
            60 => Some(Ticker::MMM),
            61 => Some(Ticker::MO),
            62 => Some(Ticker::LMT),
            63 => Some(Ticker::FISV),
            64 => Some(Ticker::ADI),
            65 => Some(Ticker::BKNG),
            66 => Some(Ticker::C),
            67 => Some(Ticker::SO),
            68 => Some(Ticker::NEE),
            69 => Some(Ticker::ZTS),
            70 => Some(Ticker::TGT),
            71 => Some(Ticker::DUK),
            72 => Some(Ticker::ICE),
            73 => Some(Ticker::BDX),
            74 => Some(Ticker::PNC),
            75 => Some(Ticker::CMCSA),
            76 => Some(Ticker::SCHW),
            77 => Some(Ticker::MDLZ),
            78 => Some(Ticker::TJX),
            79 => Some(Ticker::USB),
            80 => Some(Ticker::CL),
            81 => Some(Ticker::EMR),
            82 => Some(Ticker::APD),
            83 => Some(Ticker::COF),
            84 => Some(Ticker::FDX),
            85 => Some(Ticker::AON),
            86 => Some(Ticker::WM),
            87 => Some(Ticker::ECL),
            88 => Some(Ticker::ITW),
            89 => Some(Ticker::VRTX),
            90 => Some(Ticker::D),
            91 => Some(Ticker::NSC),
            92 => Some(Ticker::PGR),
            93 => Some(Ticker::ETN),
            94 => Some(Ticker::FIS),
            95 => Some(Ticker::PSA),
            96 => Some(Ticker::KLAC),
            97 => Some(Ticker::MCD),
            98 => Some(Ticker::ADP),
            99 => Some(Ticker::APTV),
            100 => Some(Ticker::AEP),
            101 => Some(Ticker::MCO),
            102 => Some(Ticker::SHW),
            103 => Some(Ticker::DD),
            104 => Some(Ticker::ROP),
            105 => Some(Ticker::SLB),
            106 => Some(Ticker::HUM),
            107 => Some(Ticker::BSX),
            108 => Some(Ticker::NOC),
            109 => Some(Ticker::EW),
            110 => Some(Ticker::UNKNOWN),
            _ => None,
        }
    }

    /// Whether this ticker trades in the deeper volume tier.
    pub fn is_liquid(&self) -> (r: bool)
        ensures
            r == is_liquid_ticker(*self),
    {
        match self {
            Ticker::AAPL | Ticker::MSFT | Ticker::TSLA => true,
            _ => false,
        }
    }
}

} // verus!
