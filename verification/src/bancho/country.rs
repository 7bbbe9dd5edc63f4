//! The countries that the game knows, each with the number that stands for
//! it on the wire.

use vstd::prelude::*;

verus! {

/// A country of the game's own list.
#[derive(Debug, Clone, Copy, PartialEq, Eq)]
pub enum Country {
    Unknown,
    UnitedArabEmirates,
    Argentina,
    Austria,
    Australia,
    Azerbaijan,
    Barbados,
    Bangladesh,
    Belgium,
    Bulgaria,
    Bahrain,
    Brunei,
    Brazil,
    Bhutan,
    Botswana,
    Belarus,
    Canada,
    Switzerland,
    CoteDIvoire,
    Chile,
    China,
    Colombia,
    CostaRica,
    Cuba,
    Cyprus,
    Czechia,
    Germany,
    Djibouti,
    Denmark,
    Algeria,
    Ecuador,
    Estonia,
    Egypt,
    Spain,
    Ethiopia,
    Finland,
    Fiji,
    France,
    Gabon,
    UnitedKingdom,
    Ghana,
    Greece,
    Guam,
    HongKong,
    Honduras,
    Croatia,
    Hungary,
    Indonesia,
    Ireland,
    Israel,
    India,
    Iraq,
    Iran,
    Iceland,
    Italy,
    Jamaica,
    Jordan,
    Japan,
    Kenya,
    Cambodia,
    SouthKorea,
    Kuwait,
    Liechtenstein,
    SriLanka,
    Lithuania,
    Luxembourg,
    Latvia,
    Morocco,
    Monaco,
    Madagascar,
    NorthMacedonia,
    Myanmar,
    Mongolia,
    Malta,
    Mauritius,
    Maldives,
    Mexico,
    Malaysia,
    NewCaledonia,
    Nigeria,
    Netherlands,
    Norway,
    Nepal,
    NewZealand,
    Oman,
    Panama,
    Peru,
    PapuaNewGuinea,
    Philippines,
    Pakistan,
    Poland,
    Portugal,
    Paraguay,
    Qatar,
    Romania,
    RussianFederation,
    SaudiArabia,
    Sudan,
    Sweden,
    Singapore,
    Slovenia,
    Slovakia,
    SierraLeone,
    Senegal,
    ElSalvador,
    SyrianArabRepublic,
    Togo,
    Thailand,
    Tunisia,
    Turkey,
    TrinidadAndTobago,
    Taiwan,
    Tanzania,
    Ukraine,
    UnitedStates,
    Uruguay,
    Venezuela,
    Vietnam,
    SouthAfrica,
    Zimbabwe,
}

impl Country {
    /// The number that stands for the country on the wire.
    pub open spec fn code(self) -> u8 {
        match self {
            Country::Unknown => 0,
            Country::UnitedArabEmirates => 4,
            Country::Argentina => 13,
            Country::Austria => 15,
            Country::Australia => 16,
            Country::Azerbaijan => 18,
            Country::Barbados => 20,
            Country::Bangladesh => 21,
            Country::Belgium => 22,
            Country::Bulgaria => 24,
            Country::Bahrain => 25,
            Country::Brunei => 29,
            Country::Brazil => 31,
            Country::Bhutan => 33,
            Country::Botswana => 35,
            Country::Belarus => 36,
            Country::Canada => 38,
            Country::Switzerland => 43,
            Country::CoteDIvoire => 44,
            Country::Chile => 46,
            Country::China => 48,
            Country::Colombia => 49,
            Country::CostaRica => 50,
            Country::Cuba => 51,
            Country::Cyprus => 54,
            Country::Czechia => 55,
            Country::Germany => 56,
            Country::Djibouti => 57,
            Country::Denmark => 58,
            Country::Algeria => 61,
            Country::Ecuador => 62,
            Country::Estonia => 63,
            Country::Egypt => 64,
            Country::Spain => 67,
            Country::Ethiopia => 68,
            Country::Finland => 69,
            Country::Fiji => 70,
            Country::France => 74,
            Country::Gabon => 76,
            Country::UnitedKingdom => 77,
            Country::Ghana => 81,
            Country::Greece => 88,
            Country::Guam => 91,
            Country::HongKong => 94,
            Country::Honduras => 96,
            Country::Croatia => 97,
            Country::Hungary => 99,
            Country::Indonesia => 100,
            Country::Ireland => 101,
            Country::Israel => 102,
            Country::India => 103,
            Country::Iraq => 105,
            Country::Iran => 106,
            Country::Iceland => 107,
            Country::Italy => 108,
            Country::Jamaica => 109,
            Country::Jordan => 110,
            Country::Japan => 111,
            Country::Kenya => 112,
            Country::Cambodia => 114,
            Country::SouthKorea => 119,
            Country::Kuwait => 120,
            Country::Liechtenstein => 126,
            Country::SriLanka => 127,
            Country::Lithuania => 130,
            Country::Luxembourg => 131,
            Country::Latvia => 132,
            Country::Morocco => 134,
            Country::Monaco => 135,
            Country::Madagascar => 137,
            Country::NorthMacedonia => 139,
            Country::Myanmar => 141,
            Country::Mongolia => 142,
            Country::Malta => 148,
            Country::Mauritius => 149,
            Country::Maldives => 150,
            Country::Mexico => 152,
            Country::Malaysia => 153,
            Country::NewCaledonia => 156,
            Country::Nigeria => 159,
            Country::Netherlands => 161,
            Country::Norway => 162,
            Country::Nepal => 163,
            Country::NewZealand => 166,
            Country::Oman => 167,
            Country::Panama => 168,
            Country::Peru => 169,
            Country::PapuaNewGuinea => 171,
            Country::Philippines => 172,
            Country::Pakistan => 173,
            Country::Poland => 174,
            Country::Portugal => 179,
            Country::Paraguay => 181,
            Country::Qatar => 182,
            Country::Romania => 184,
            Country::RussianFederation => 185,
            Country::SaudiArabia => 187,
            Country::Sudan => 190,
            Country::Sweden => 191,
            Country::Singapore => 192,
            Country::Slovenia => 194,
            Country::Slovakia => 196,
            Country::SierraLeone => 197,
            Country::Senegal => 199,
            Country::ElSalvador => 203,
            Country::SyrianArabRepublic => 204,
            Country::Togo => 209,
            Country::Thailand => 210,
            Country::Tunisia => 214,
            Country::Turkey => 217,
            Country::TrinidadAndTobago => 218,
            Country::Taiwan => 220,
            Country::Tanzania => 221,
            Country::Ukraine => 222,
            Country::UnitedStates => 225,
            Country::Uruguay => 226,
            Country::Venezuela => 230,
            Country::Vietnam => 233,
            Country::SouthAfrica => 240,
            Country::Zimbabwe => 243,
        }
    }

    /// The number that stands for the country on the wire.
    pub fn as_u8(&self) -> (code: u8)
        ensures
            code == self.code(),
    {
        match self {
            Country::Unknown => 0,
            Country::UnitedArabEmirates => 4,
            Country::Argentina => 13,
            Country::Austria => 15,
            Country::Australia => 16,
            Country::Azerbaijan => 18,
            Country::Barbados => 20,
            Country::Bangladesh => 21,
            Country::Belgium => 22,
            Country::Bulgaria => 24,
            Country::Bahrain => 25,
            Country::Brunei => 29,
            Country::Brazil => 31,
            Country::Bhutan => 33,
            Country::Botswana => 35,
            Country::Belarus => 36,
            Country::Canada => 38,
            Country::Switzerland => 43,
            Country::CoteDIvoire => 44,
            Country::Chile => 46,
            Country::China => 48,
            Country::Colombia => 49,
            Country::CostaRica => 50,
            Country::Cuba => 51,
            Country::Cyprus => 54,
            Country::Czechia => 55,
            Country::Germany => 56,
            Country::Djibouti => 57,
            Country::Denmark => 58,
            Country::Algeria => 61,
            Country::Ecuador => 62,
            Country::Estonia => 63,
            Country::Egypt => 64,
            Country::Spain => 67,
            Country::Ethiopia => 68,
            Country::Finland => 69,
            Country::Fiji => 70,
            Country::France => 74,
            Country::Gabon => 76,
            Country::UnitedKingdom => 77,
            Country::Ghana => 81,
            Country::Greece => 88,
            Country::Guam => 91,
            Country::HongKong => 94,
            Country::Honduras => 96,
            Country::Croatia => 97,
            Country::Hungary => 99,
            Country::Indonesia => 100,
            Country::Ireland => 101,
            Country::Israel => 102,
            Country::India => 103,
            Country::Iraq => 105,
            Country::Iran => 106,
            Country::Iceland => 107,
            Country::Italy => 108,
            Country::Jamaica => 109,
            Country::Jordan => 110,
            Country::Japan => 111,
            Country::Kenya => 112,
            Country::Cambodia => 114,
            Country::SouthKorea => 119,
            Country::Kuwait => 120,
            Country::Liechtenstein => 126,
            Country::SriLanka => 127,
            Country::Lithuania => 130,
            Country::Luxembourg => 131,
            Country::Latvia => 132,
            Country::Morocco => 134,
            Country::Monaco => 135,
            Country::Madagascar => 137,
            Country::NorthMacedonia => 139,
            Country::Myanmar => 141,
            Country::Mongolia => 142,
            Country::Malta => 148,
            Country::Mauritius => 149,
            Country::Maldives => 150,
            Country::Mexico => 152,
            Country::Malaysia => 153,
            Country::NewCaledonia => 156,
            Country::Nigeria => 159,
            Country::Netherlands => 161,
            Country::Norway => 162,
            Country::Nepal => 163,
            Country::NewZealand => 166,
            Country::Oman => 167,
            Country::Panama => 168,
            Country::Peru => 169,
            Country::PapuaNewGuinea => 171,
            Country::Philippines => 172,
            Country::Pakistan => 173,
            Country::Poland => 174,
            Country::Portugal => 179,
            Country::Paraguay => 181,
            Country::Qatar => 182,
            Country::Romania => 184,
            Country::RussianFederation => 185,
            Country::SaudiArabia => 187,
            Country::Sudan => 190,
            Country::Sweden => 191,
            Country::Singapore => 192,
            Country::Slovenia => 194,
            Country::Slovakia => 196,
            Country::SierraLeone => 197,
            Country::Senegal => 199,
            Country::ElSalvador => 203,
            Country::SyrianArabRepublic => 204,
            Country::Togo => 209,
            Country::Thailand => 210,
            Country::Tunisia => 214,
            Country::Turkey => 217,
            Country::TrinidadAndTobago => 218,
            Country::Taiwan => 220,
            Country::Tanzania => 221,
            Country::Ukraine => 222,
            Country::UnitedStates => 225,
            Country::Uruguay => 226,
            Country::Venezuela => 230,
            Country::Vietnam => 233,
            Country::SouthAfrica => 240,
            Country::Zimbabwe => 243,
        }
    }

    /// The country that a number stands for, if it stands for one.
    pub fn from_u8(repr: u8) -> (country: Option<Country>)
        ensures
            match country {
                Some(country) => country.code() == repr,
                None => forall|other: Country| other.code() != repr,
            },
    {
        match repr {
            0 => Some(Country::Unknown),
            4 => Some(Country::UnitedArabEmirates),
            13 => Some(Country::Argentina),
            15 => Some(Country::Austria),
            16 => Some(Country::Australia),
            18 => Some(Country::Azerbaijan),
            20 => Some(Country::Barbados),
            21 => Some(Country::Bangladesh),
            22 => Some(Country::Belgium),
            24 => Some(Country::Bulgaria),
            25 => Some(Country::Bahrain),
            29 => Some(Country::Brunei),
            31 => Some(Country::Brazil),
            33 => Some(Country::Bhutan),
            35 => Some(Country::Botswana),
            36 => Some(Country::Belarus),
            38 => Some(Country::Canada),
            43 => Some(Country::Switzerland),
            44 => Some(Country::CoteDIvoire),
            46 => Some(Country::Chile),
            48 => Some(Country::China),
            49 => Some(Country::Colombia),
            50 => Some(Country::CostaRica),
            51 => Some(Country::Cuba),
            54 => Some(Country::Cyprus),
            55 => Some(Country::Czechia),
            56 => Some(Country::Germany),
            57 => Some(Country::Djibouti),
            58 => Some(Country::Denmark),
            61 => Some(Country::Algeria),
            62 => Some(Country::Ecuador),
            63 => Some(Country::Estonia),
            64 => Some(Country::Egypt),
            67 => Some(Country::Spain),
            68 => Some(Country::Ethiopia),
            69 => Some(Country::Finland),
            70 => Some(Country::Fiji),
            74 => Some(Country::France),
            76 => Some(Country::Gabon),
            77 => Some(Country::UnitedKingdom),
            81 => Some(Country::Ghana),
            88 => Some(Country::Greece),
            91 => Some(Country::Guam),
            94 => Some(Country::HongKong),
            96 => Some(Country::Honduras),
            97 => Some(Country::Croatia),
            99 => Some(Country::Hungary),
            100 => Some(Country::Indonesia),
            101 => Some(Country::Ireland),
            102 => Some(Country::Israel),
            103 => Some(Country::India),
            105 => Some(Country::Iraq),
            106 => Some(Country::Iran),
            107 => Some(Country::Iceland),
            108 => Some(Country::Italy),
            109 => Some(Country::Jamaica),
            110 => Some(Country::Jordan),
            111 => Some(Country::Japan),
            112 => Some(Country::Kenya),
            114 => Some(Country::Cambodia),
            119 => Some(Country::SouthKorea),
            120 => Some(Country::Kuwait),
            126 => Some(Country::Liechtenstein),
            127 => Some(Country::SriLanka),
            130 => Some(Country::Lithuania),
            131 => Some(Country::Luxembourg),
            132 => Some(Country::Latvia),
            134 => Some(Country::Morocco),
            135 => Some(Country::Monaco),
            137 => Some(Country::Madagascar),
            139 => Some(Country::NorthMacedonia),
            141 => Some(Country::Myanmar),
            142 => Some(Country::Mongolia),
            148 => Some(Country::Malta),
            149 => Some(Country::Mauritius),
            150 => Some(Country::Maldives),
            152 => Some(Country::Mexico),
            153 => Some(Country::Malaysia),
            156 => Some(Country::NewCaledonia),
            159 => Some(Country::Nigeria),
            161 => Some(Country::Netherlands),
            162 => Some(Country::Norway),
            163 => Some(Country::Nepal),
            166 => Some(Country::NewZealand),
            167 => Some(Country::Oman),
            168 => Some(Country::Panama),
            169 => Some(Country::Peru),
            171 => Some(Country::PapuaNewGuinea),
            172 => Some(Country::Philippines),
            173 => Some(Country::Pakistan),
            174 => Some(Country::Poland),
            179 => Some(Country::Portugal),
            181 => Some(Country::Paraguay),
            182 => Some(Country::Qatar),
            184 => Some(Country::Romania),
            185 => Some(Country::RussianFederation),
            187 => Some(Country::SaudiArabia),
            190 => Some(Country::Sudan),
            191 => Some(Country::Sweden),
            192 => Some(Country::Singapore),
            194 => Some(Country::Slovenia),
            196 => Some(Country::Slovakia),
            197 => Some(Country::SierraLeone),
            199 => Some(Country::Senegal),
            203 => Some(Country::ElSalvador),
            204 => Some(Country::SyrianArabRepublic),
            209 => Some(Country::Togo),
            210 => Some(Country::Thailand),
            214 => Some(Country::Tunisia),
            217 => Some(Country::Turkey),
            218 => Some(Country::TrinidadAndTobago),
            220 => Some(Country::Taiwan),
            221 => Some(Country::Tanzania),
            222 => Some(Country::Ukraine),
            225 => Some(Country::UnitedStates),
            226 => Some(Country::Uruguay),
            230 => Some(Country::Venezuela),
            233 => Some(Country::Vietnam),
            240 => Some(Country::SouthAfrica),
            243 => Some(Country::Zimbabwe),
            _ => None,
        }
    }
}

} // verus!
