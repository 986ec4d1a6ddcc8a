//! Decimal constants in binary64 encoding.
//!
//! Each constant holds the bits of the number nearest to a decimal fraction;
//! the proof functions below state which.
use crate::binary64::{Binary64, INFINITE_MAGNITUDE, UNIT_EXPONENT};
use vstd::arithmetic::power2::*;
use vstd::prelude::*;

verus! {

/// -1000
pub const M1000: u64 = 0xC08F_4000_0000_0000;

/// -500
pub const M500: u64 = 0xC07F_4000_0000_0000;

/// -200
pub const M200: u64 = 0xC069_0000_0000_0000;

/// -50
pub const M50: u64 = 0xC049_0000_0000_0000;

/// -30
pub const M30: u64 = 0xC03E_0000_0000_0000;

/// -24
pub const M24: u64 = 0xC038_0000_0000_0000;

/// -20
pub const M20: u64 = 0xC034_0000_0000_0000;

/// -12
pub const M12: u64 = 0xC028_0000_0000_0000;

/// -9.80665
pub const M9_80665: u64 = 0xC023_9D01_3A92_A305;

/// -7
pub const M7: u64 = 0xC01C_0000_0000_0000;

/// -6.5
pub const M6_5: u64 = 0xC01A_0000_0000_0000;

/// -5.5
pub const M5_5: u64 = 0xC016_0000_0000_0000;

/// -4
pub const M4: u64 = 0xC010_0000_0000_0000;

/// -3.5
pub const M3_5: u64 = 0xC00C_0000_0000_0000;

/// -3
pub const M3: u64 = 0xC008_0000_0000_0000;

/// -2.8
pub const M2_8: u64 = 0xC006_6666_6666_6666;

/// -2.7
pub const M2_7: u64 = 0xC005_9999_9999_999A;

/// -2.38
pub const M2_38: u64 = 0xC003_0A3D_70A3_D70A;

/// -2.25
pub const M2_25: u64 = 0xC002_0000_0000_0000;

/// -2.2
pub const M2_2: u64 = 0xC001_9999_9999_999A;

/// -2.05
pub const M2_05: u64 = 0xC000_6666_6666_6666;

/// -2
pub const M2: u64 = 0xC000_0000_0000_0000;

/// -1.8
pub const M1_8: u64 = 0xBFFC_CCCC_CCCC_CCCD;

/// -1.6
pub const M1_6: u64 = 0xBFF9_9999_9999_999A;

/// -1.4
pub const M1_4: u64 = 0xBFF6_6666_6666_6666;

/// -1
pub const M1: u64 = 0xBFF0_0000_0000_0000;

/// -0.75
pub const M0_75: u64 = 0xBFE8_0000_0000_0000;

/// -0.55
pub const M0_55: u64 = 0xBFE1_9999_9999_999A;

/// -0.5
pub const M0_5: u64 = 0xBFE0_0000_0000_0000;

/// -0.45
pub const M0_45: u64 = 0xBFDC_CCCC_CCCC_CCCD;

/// -0.35
pub const M0_35: u64 = 0xBFD6_6666_6666_6666;

/// -0.31
pub const M0_31: u64 = 0xBFD3_D70A_3D70_A3D7;

/// -0.2
pub const M0_2: u64 = 0xBFC9_9999_9999_999A;

/// -0.16
pub const M0_16: u64 = 0xBFC4_7AE1_47AE_147B;

/// -0.15
pub const M0_15: u64 = 0xBFC3_3333_3333_3333;

/// -0.12
pub const M0_12: u64 = 0xBFBE_B851_EB85_1EB8;

/// -0.09
pub const M0_09: u64 = 0xBFB7_0A3D_70A3_D70A;

/// -0.02
pub const M0_02: u64 = 0xBF94_7AE1_47AE_147B;

/// -0.015
pub const M0_015: u64 = 0xBF8E_B851_EB85_1EB8;

/// -0.004
pub const M0_004: u64 = 0xBF70_624D_D2F1_A9FC;

/// -1e-6
pub const M1EM6: u64 = 0xBEB0_C6F7_A0B5_ED8D;

/// 0
pub const D0: u64 = 0x0000_0000_0000_0000;

/// 1e-18
pub const D1EM18: u64 = 0x3C32_725D_D1D2_43AC;

/// 1e-12
pub const D1EM12: u64 = 0x3D71_9799_812D_EA11;

/// 1e-10
pub const D1EM10: u64 = 0x3DDB_7CDF_D9D7_BDBB;

/// 1e-9
pub const D1EM9: u64 = 0x3E11_2E0B_E826_D695;

/// 1e-8
pub const D1EM8: u64 = 0x3E45_798E_E230_8C3A;

/// 1e-6
pub const D1EM6: u64 = 0x3EB0_C6F7_A0B5_ED8D;

/// 1.458e-6
pub const D1_458EM6: u64 = 0x3EB8_760F_F40B_4C87;

/// 0.0000181
pub const D0_0000181: u64 = 0x3EF2_FAAE_8767_67EE;

/// 0.0001
pub const D0_0001: u64 = 0x3F1A_36E2_EB1C_432D;

/// 1e-4
pub const D1EM4: u64 = 0x3F1A_36E2_EB1C_432D;

/// 0.000123456789
pub const D0_000123456789: u64 = 0x3F20_2E85_BE11_1841;

/// 0.001
pub const D0_001: u64 = 0x3F50_624D_D2F1_A9FC;

/// 1e-3
pub const D1EM3: u64 = 0x3F50_624D_D2F1_A9FC;

/// 0.002
pub const D0_002: u64 = 0x3F60_624D_D2F1_A9FC;

/// 0.0028
pub const D0_0028: u64 = 0x3F66_F006_8DB8_BAC7;

/// 0.003
pub const D0_003: u64 = 0x3F68_9374_BC6A_7EFA;

/// 0.005
pub const D0_005: u64 = 0x3F74_7AE1_47AE_147B;

/// 0.0065
pub const D0_0065: u64 = 0x3F7A_9FBE_76C8_B439;

/// 0.008
pub const D0_008: u64 = 0x3F80_624D_D2F1_A9FC;

/// 0.01
pub const D0_01: u64 = 0x3F84_7AE1_47AE_147B;

/// 0.015
pub const D0_015: u64 = 0x3F8E_B851_EB85_1EB8;

/// 0.016666666666666666
pub const D0_016666666666666666: u64 = 0x3F91_1111_1111_1111;

/// 0.017453292519943295
pub const D0_017453292519943295: u64 = 0x3F91_DF46_A252_9D39;

/// 0.02
pub const D0_02: u64 = 0x3F94_7AE1_47AE_147B;

/// 0.03
pub const D0_03: u64 = 0x3F9E_B851_EB85_1EB8;

/// 0.04
pub const D0_04: u64 = 0x3FA4_7AE1_47AE_147B;

/// 0.05
pub const D0_05: u64 = 0x3FA9_9999_9999_999A;

/// 0.06
pub const D0_06: u64 = 0x3FAE_B851_EB85_1EB8;

/// 0.07
pub const D0_07: u64 = 0x3FB1_EB85_1EB8_51EC;

/// 0.074
pub const D0_074: u64 = 0x3FB2_F1A9_FBE7_6C8B;

/// 0.08
pub const D0_08: u64 = 0x3FB4_7AE1_47AE_147B;

/// 0.09
pub const D0_09: u64 = 0x3FB7_0A3D_70A3_D70A;

/// 0.1
pub const D0_1: u64 = 0x3FB9_9999_9999_999A;

/// 0.1031
pub const D0_1031: u64 = 0x3FBA_64C2_F837_B4A2;

/// 0.12
pub const D0_12: u64 = 0x3FBE_B851_EB85_1EB8;

/// 0.14
pub const D0_14: u64 = 0x3FC1_EB85_1EB8_51EC;

/// 0.15
pub const D0_15: u64 = 0x3FC3_3333_3333_3333;

/// 0.16
pub const D0_16: u64 = 0x3FC4_7AE1_47AE_147B;

/// 0.2
pub const D0_2: u64 = 0x3FC9_9999_9999_999A;

/// 0.25
pub const D0_25: u64 = 0x3FD0_0000_0000_0000;

/// 0.28
pub const D0_28: u64 = 0x3FD1_EB85_1EB8_51EC;

/// 0.3
pub const D0_3: u64 = 0x3FD3_3333_3333_3333;

/// 0.316624790355
pub const D0_316624790355: u64 = 0x3FD4_4394_9FEB_5D7E;

/// 0.32
pub const D0_32: u64 = 0x3FD4_7AE1_47AE_147B;

/// 0.35
pub const D0_35: u64 = 0x3FD6_6666_6666_6666;

/// 0.381966011250105
pub const D0_381966011250105: u64 = 0x3FD8_7221_91A0_2D5E;

/// 0.4
pub const D0_4: u64 = 0x3FD9_9999_9999_999A;

/// 0.42
pub const D0_42: u64 = 0x3FDA_E147_AE14_7AE1;

/// 0.45
pub const D0_45: u64 = 0x3FDC_CCCC_CCCC_CCCD;

/// 0.5
pub const D0_5: u64 = 0x3FE0_0000_0000_0000;

/// 0.55
pub const D0_55: u64 = 0x3FE1_9999_9999_999A;

/// 0.574
pub const D0_574: u64 = 0x3FE2_5E35_3F7C_ED91;

/// 0.6
pub const D0_6: u64 = 0x3FE3_3333_3333_3333;

/// 0.618033988749895
pub const D0_618033988749895: u64 = 0x3FE3_C6EF_372F_E951;

/// 0.62
pub const D0_62: u64 = 0x3FE3_D70A_3D70_A3D7;

/// 0.65
pub const D0_65: u64 = 0x3FE4_CCCC_CCCC_CCCD;

/// 0.7
pub const D0_7: u64 = 0x3FE6_6666_6666_6666;

/// 0.75
pub const D0_75: u64 = 0x3FE8_0000_0000_0000;

/// 0.8
pub const D0_8: u64 = 0x3FE9_9999_9999_999A;

/// 0.85
pub const D0_85: u64 = 0x3FEB_3333_3333_3333;

/// 0.9
pub const D0_9: u64 = 0x3FEC_CCCC_CCCC_CCCD;

/// 0.95
pub const D0_95: u64 = 0x3FEE_6666_6666_6666;

/// 0.99
pub const D0_99: u64 = 0x3FEF_AE14_7AE1_47AE;

/// 0.999999999
pub const D0_999999999: u64 = 0x3FEF_FFFF_FF76_8FA1;

/// 1
pub const D1: u64 = 0x3FF0_0000_0000_0000;

/// 1.1
pub const D1_1: u64 = 0x3FF1_9999_9999_999A;

/// 1.15
pub const D1_15: u64 = 0x3FF2_6666_6666_6666;

/// 1.2
pub const D1_2: u64 = 0x3FF3_3333_3333_3333;

/// 1.225
pub const D1_225: u64 = 0x3FF3_9999_9999_999A;

/// 1.3
pub const D1_3: u64 = 0x3FF4_CCCC_CCCC_CCCD;

/// 1.35
pub const D1_35: u64 = 0x3FF5_9999_9999_999A;

/// 1.4
pub const D1_4: u64 = 0x3FF6_6666_6666_6666;

/// 1.5
pub const D1_5: u64 = 0x3FF8_0000_0000_0000;

/// 1.6
pub const D1_6: u64 = 0x3FF9_9999_9999_999A;

/// 1.65
pub const D1_65: u64 = 0x3FFA_6666_6666_6666;

/// 1.7
pub const D1_7: u64 = 0x3FFB_3333_3333_3333;

/// 1.8
pub const D1_8: u64 = 0x3FFC_CCCC_CCCC_CCCD;

/// 1.9
pub const D1_9: u64 = 0x3FFE_6666_6666_6666;

/// 1.94384
pub const D1_94384: u64 = 0x3FFF_19F7_F8CA_8199;

/// 1.95
pub const D1_95: u64 = 0x3FFF_3333_3333_3333;

/// 2
pub const D2: u64 = 0x4000_0000_0000_0000;

/// 2.2
pub const D2_2: u64 = 0x4001_9999_9999_999A;

/// 2.25
pub const D2_25: u64 = 0x4002_0000_0000_0000;

/// 2.3
pub const D2_3: u64 = 0x4002_6666_6666_6666;

/// 2.4
pub const D2_4: u64 = 0x4003_3333_3333_3333;

/// 2.5
pub const D2_5: u64 = 0x4004_0000_0000_0000;

/// 2.6
pub const D2_6: u64 = 0x4004_CCCC_CCCC_CCCD;

/// 2.8
pub const D2_8: u64 = 0x4006_6666_6666_6666;

/// 3
pub const D3: u64 = 0x4008_0000_0000_0000;

/// 3.141592653589793
pub const D3_141592653589793: u64 = 0x4009_21FB_5444_2D18;

/// 3.28084
pub const D3_28084: u64 = 0x400A_3F29_0ABB_44E5;

/// 3.3
pub const D3_3: u64 = 0x400A_6666_6666_6666;

/// 3.4
pub const D3_4: u64 = 0x400B_3333_3333_3333;

/// 3.5
pub const D3_5: u64 = 0x400C_0000_0000_0000;

/// 3.7
pub const D3_7: u64 = 0x400D_9999_9999_999A;

/// 3.95642
pub const D3_95642: u64 = 0x400F_A6BF_8769_EC2D;

/// 4
pub const D4: u64 = 0x4010_0000_0000_0000;

/// 4.5
pub const D4_5: u64 = 0x4012_0000_0000_0000;

/// 5
pub const D5: u64 = 0x4014_0000_0000_0000;

/// 5.2
pub const D5_2: u64 = 0x4014_CCCC_CCCC_CCCD;

/// 5.5
pub const D5_5: u64 = 0x4016_0000_0000_0000;

/// 6
pub const D6: u64 = 0x4018_0000_0000_0000;

/// 6.05
pub const D6_05: u64 = 0x4018_3333_3333_3333;

/// 6.2831853
pub const D6_2831853: u64 = 0x4019_21FB_53C8_D4F1;

/// 6.283185307179586
pub const D6_283185307179586: u64 = 0x4019_21FB_5444_2D18;

/// 7
pub const D7: u64 = 0x401C_0000_0000_0000;

/// 7.5
pub const D7_5: u64 = 0x401E_0000_0000_0000;

/// 8
pub const D8: u64 = 0x4020_0000_0000_0000;

/// 9
pub const D9: u64 = 0x4022_0000_0000_0000;

/// 9.80665
pub const D9_80665: u64 = 0x4023_9D01_3A92_A305;

/// 10
pub const D10: u64 = 0x4024_0000_0000_0000;

/// 12
pub const D12: u64 = 0x4028_0000_0000_0000;

/// 12.9898
pub const D12_9898: u64 = 0x4029_FAC7_10CB_295F;

/// 13
pub const D13: u64 = 0x402A_0000_0000_0000;

/// 13.2
pub const D13_2: u64 = 0x402A_6666_6666_6666;

/// 13.5
pub const D13_5: u64 = 0x402B_0000_0000_0000;

/// 14.5
pub const D14_5: u64 = 0x402D_0000_0000_0000;

/// 15
pub const D15: u64 = 0x402E_0000_0000_0000;

/// 16
pub const D16: u64 = 0x4030_0000_0000_0000;

/// 16.8
pub const D16_8: u64 = 0x4030_CCCC_CCCC_CCCD;

/// 18
pub const D18: u64 = 0x4032_0000_0000_0000;

/// 20
pub const D20: u64 = 0x4034_0000_0000_0000;

/// 21
pub const D21: u64 = 0x4035_0000_0000_0000;

/// 25
pub const D25: u64 = 0x4039_0000_0000_0000;

/// 30
pub const D30: u64 = 0x403E_0000_0000_0000;

/// 32
pub const D32: u64 = 0x4040_0000_0000_0000;

/// 35
pub const D35: u64 = 0x4041_8000_0000_0000;

/// 37
pub const D37: u64 = 0x4042_8000_0000_0000;

/// 38
pub const D38: u64 = 0x4043_0000_0000_0000;

/// 40
pub const D40: u64 = 0x4044_0000_0000_0000;

/// 45
pub const D45: u64 = 0x4046_8000_0000_0000;

/// 50
pub const D50: u64 = 0x4049_0000_0000_0000;

/// 57.29577951308232
pub const D57_29577951308232: u64 = 0x404C_A5DC_1A63_C1F8;

/// 60
pub const D60: u64 = 0x404E_0000_0000_0000;

/// 66.93887
pub const D66_93887: u64 = 0x4050_BC16_7232_4C83;

/// 78.233
pub const D78_233: u64 = 0x4053_8EE9_78D4_FDF4;

/// 80
pub const D80: u64 = 0x4054_0000_0000_0000;

/// 99.9
pub const D99_9: u64 = 0x4058_F999_9999_999A;

/// 100
pub const D100: u64 = 0x4059_0000_0000_0000;

/// 110.4
pub const D110_4: u64 = 0x405B_9999_9999_999A;

/// 110.9063
pub const D110_9063: u64 = 0x405B_BA00_D1B7_1759;

/// 120
pub const D120: u64 = 0x405E_0000_0000_0000;

/// 200
pub const D200: u64 = 0x4069_0000_0000_0000;

/// 214.65
pub const D214_65: u64 = 0x406A_D4CC_CCCC_CCCD;

/// 216.65
pub const D216_65: u64 = 0x406B_14CC_CCCC_CCCD;

/// 228.65
pub const D228_65: u64 = 0x406C_94CC_CCCC_CCCD;

/// 266.5
pub const D266_5: u64 = 0x4070_A800_0000_0000;

/// 270.65
pub const D270_65: u64 = 0x4070_EA66_6666_6666;

/// 273.15
pub const D273_15: u64 = 0x4071_1266_6666_6666;

/// 287.05287
pub const D287_05287: u64 = 0x4071_F0D8_8E36_8F08;

/// 288.15
pub const D288_15: u64 = 0x4072_0266_6666_6666;

/// 300
pub const D300: u64 = 0x4072_C000_0000_0000;

/// 360
pub const D360: u64 = 0x4076_8000_0000_0000;

/// 400
pub const D400: u64 = 0x4079_0000_0000_0000;

/// 500
pub const D500: u64 = 0x407F_4000_0000_0000;

/// 533
pub const D533: u64 = 0x4080_A800_0000_0000;

/// 800
pub const D800: u64 = 0x4089_0000_0000_0000;

/// 868.0187
pub const D868_0187: u64 = 0x408B_2026_4C2F_837B;

/// 1000
pub const D1000: u64 = 0x408F_4000_0000_0000;

/// 1197
pub const D1197: u64 = 0x4092_B400_0000_0000;

/// 1200
pub const D1200: u64 = 0x4092_C000_0000_0000;

/// 1500
pub const D1500: u64 = 0x4097_7000_0000_0000;

/// 2500
pub const D2500: u64 = 0x40A3_8800_0000_0000;

/// 3600
pub const D3600: u64 = 0x40AC_2000_0000_0000;

/// 5000
pub const D5000: u64 = 0x40B3_8800_0000_0000;

/// 5400
pub const D5400: u64 = 0x40B5_1800_0000_0000;

/// 7000
pub const D7000: u64 = 0x40BB_5800_0000_0000;

/// 7999
pub const D7999: u64 = 0x40BF_3F00_0000_0000;

/// 9000
pub const D9000: u64 = 0x40C1_9400_0000_0000;

/// 10999.875
pub const D10999_875: u64 = 0x40C5_7BF0_0000_0000;

/// 11000
pub const D11000: u64 = 0x40C5_7C00_0000_0000;

/// 11000.125
pub const D11000_125: u64 = 0x40C5_7C10_0000_0000;

/// 12000
pub const D12000: u64 = 0x40C7_7000_0000_0000;

/// 19999.875
pub const D19999_875: u64 = 0x40D3_87F8_0000_0000;

/// 20000
pub const D20000: u64 = 0x40D3_8800_0000_0000;

/// 20000.125
pub const D20000_125: u64 = 0x40D3_8808_0000_0000;

/// 22000
pub const D22000: u64 = 0x40D5_7C00_0000_0000;

/// 22632.06
pub const D22632_06: u64 = 0x40D6_1A03_D70A_3D71;

/// 31999.875
pub const D31999_875: u64 = 0x40DF_3FF8_0000_0000;

/// 32000
pub const D32000: u64 = 0x40DF_4000_0000_0000;

/// 32000.125
pub const D32000_125: u64 = 0x40DF_4008_0000_0000;

/// 42000
pub const D42000: u64 = 0x40E4_8200_0000_0000;

/// 43758.5453
pub const D43758_5453: u64 = 0x40E5_5DD1_7318_FC50;

/// 46999.875
pub const D46999_875: u64 = 0x40E6_F2FC_0000_0000;

/// 47000
pub const D47000: u64 = 0x40E6_F300_0000_0000;

/// 47000.125
pub const D47000_125: u64 = 0x40E6_F304_0000_0000;

/// 50999.875
pub const D50999_875: u64 = 0x40E8_E6FC_0000_0000;

/// 51000
pub const D51000: u64 = 0x40E8_E700_0000_0000;

/// 51000.125
pub const D51000_125: u64 = 0x40E8_E704_0000_0000;

/// 70999.875
pub const D70999_875: u64 = 0x40F1_557E_0000_0000;

/// 71000
pub const D71000: u64 = 0x40F1_5580_0000_0000;

/// 71000.125
pub const D71000_125: u64 = 0x40F1_5582_0000_0000;

/// 86000
pub const D86000: u64 = 0x40F4_FF00_0000_0000;

/// 100000
pub const D100000: u64 = 0x40F8_6A00_0000_0000;

/// 101325
pub const D101325: u64 = 0x40F8_BCD0_0000_0000;

/// 119000
pub const D119000: u64 = 0x40FD_0D80_0000_0000;

/// 6356766
pub const D6356766: u64 = 0x4158_3FC7_8000_0000;

/// The number that a constant encodes.
#[verifier::allow_in_spec]
pub fn num(bits: u64) -> (r: Binary64)
    ensures
        r.bits == bits,
    returns
        (Binary64 { bits }),
{
    Binary64 { bits }
}

/// `bits` encode the number nearest to `num / den`, or to its negation.
pub open spec fn encodes(bits: u64, negative: bool, num: nat, den: nat) -> bool {
    let x = Binary64 { bits };
    &&& x.finite()
    &&& x.negative() == negative
    &&& crate::binary64::nearest_even(x.magnitude(), num * pow2(UNIT_EXPONENT as nat), den)
}

/// The magnitude of mantissa `m` and exponent `e` is nearest to `num / den`.
proof fn lemma_decimal(m: nat, e: nat, p: nat, num: nat, den: nat)
    requires
        crate::binary64::canonical(m, e),
        e * 0x10_0000_0000_0000 + m < INFINITE_MAGNITUDE,
        den > 0,
        e <= 1074,
        p == pow2((1074 - e) as nat),
        m * den == num * p || (m > 0x10_0000_0000_0000 && 2 * (m * den) < 2 * (num * p) + den && 2
            * (num * p) < 2 * (m * den) + den),
    ensures
        crate::binary64::nearest_even(
            e * 0x10_0000_0000_0000 + m,
            num * pow2(UNIT_EXPONENT as nat),
            den,
        ),
{
    let b = pow2(e);
    let n = num * pow2(1074);
    let mag: nat = e * 0x10_0000_0000_0000 + m;
    lemma_pow2_pos(e);
    lemma_pow2_adds((1074 - e) as nat, e);
    crate::binary64::lemma_canonical_value(m, e);
    assert(n == (num * p) * b) by (nonlinear_arith)
        requires
            n == num * pow2(1074),
            pow2(1074) == p * b,
    ;
    let v = m * b;
    let above = (v + (m + 1) * b) * den;
    assert(2 * n < above) by (nonlinear_arith)
        requires
            n == (num * p) * b,
            above == (v + (m + 1) * b) * den,
            v == m * b,
            2 * (num * p) < 2 * (m * den) + den,
            b > 0,
    ;
    if mag > 0 {
        crate::binary64::lemma_next_is_larger((mag - 1) as nat);
        let u = crate::binary64::magnitude_value((mag - 1) as nat);
        if m * den == num * p {
            assert((u + v) * den < 2 * n) by (nonlinear_arith)
                requires
                    n == (num * p) * b,
                    v == m * b,
                    m * den == num * p,
                    u < v,
                    den > 0,
            ;
        } else {
            crate::binary64::lemma_canonical_value((m - 1) as nat, e);
            assert((u + v) * den < 2 * n) by (nonlinear_arith)
                requires
                    n == (num * p) * b,
                    v == m * b,
                    u == (m - 1) * b,
                    2 * (m * den) < 2 * (num * p) + den,
                    b > 0,
            ;
        }
    }
}

/// The constants from -1000 to -24 encode the decimals that they name.
pub proof fn decimals_1()
    ensures
        encodes(M1000, true, 1000, 1),
        encodes(M500, true, 500, 1),
        encodes(M200, true, 200, 1),
        encodes(M50, true, 50, 1),
        encodes(M30, true, 30, 1),
        encodes(M24, true, 24, 1),
{
    lemma2_to64();
    lemma2_to64_rest();
    lemma_decimal(8796093022208000, 1031, 8796093022208, 1000, 1);
    lemma_decimal(8796093022208000, 1030, 17592186044416, 500, 1);
    lemma_decimal(7036874417766400, 1029, 35184372088832, 200, 1);
    lemma_decimal(7036874417766400, 1027, 140737488355328, 50, 1);
    lemma_decimal(8444249301319680, 1026, 281474976710656, 30, 1);
    lemma_decimal(6755399441055744, 1026, 281474976710656, 24, 1);
}

/// The constants from -20 to -5.5 encode the decimals that they name.
pub proof fn decimals_2()
    ensures
        encodes(M20, true, 20, 1),
        encodes(M12, true, 12, 1),
        encodes(M9_80665, true, 980665, 100000),
        encodes(M7, true, 7, 1),
        encodes(M6_5, true, 65, 10),
        encodes(M5_5, true, 55, 10),
{
    lemma2_to64();
    lemma2_to64_rest();
    lemma_decimal(5629499534213120, 1026, 281474976710656, 20, 1);
    lemma_decimal(6755399441055744, 1025, 562949953421312, 12, 1);
    lemma_decimal(5520653160719109, 1025, 562949953421312, 980665, 100000);
    lemma_decimal(7881299347898368, 1024, 1125899906842624, 7, 1);
    lemma_decimal(7318349394477056, 1024, 1125899906842624, 65, 10);
    lemma_decimal(6192449487634432, 1024, 1125899906842624, 55, 10);
}

/// The constants from -4 to -2.38 encode the decimals that they name.
pub proof fn decimals_3()
    ensures
        encodes(M4, true, 4, 1),
        encodes(M3_5, true, 35, 10),
        encodes(M3, true, 3, 1),
        encodes(M2_8, true, 28, 10),
        encodes(M2_7, true, 27, 10),
        encodes(M2_38, true, 238, 100),
{
    lemma2_to64();
    lemma2_to64_rest();
    lemma_decimal(4503599627370496, 1024, 1125899906842624, 4, 1);
    lemma_decimal(7881299347898368, 1023, 2251799813685248, 35, 10);
    lemma_decimal(6755399441055744, 1023, 2251799813685248, 3, 1);
    lemma_decimal(6305039478318694, 1023, 2251799813685248, 28, 10);
    lemma_decimal(6079859496950170, 1023, 2251799813685248, 27, 10);
    lemma_decimal(5359283556570890, 1023, 2251799813685248, 238, 100);
}

/// The constants from -2.25 to -1.6 encode the decimals that they name.
pub proof fn decimals_4()
    ensures
        encodes(M2_25, true, 225, 100),
        encodes(M2_2, true, 22, 10),
        encodes(M2_05, true, 205, 100),
        encodes(M2, true, 2, 1),
        encodes(M1_8, true, 18, 10),
        encodes(M1_6, true, 16, 10),
{
    lemma2_to64();
    lemma2_to64_rest();
    lemma_decimal(5066549580791808, 1023, 2251799813685248, 225, 100);
    lemma_decimal(4953959590107546, 1023, 2251799813685248, 22, 10);
    lemma_decimal(4616189618054758, 1023, 2251799813685248, 205, 100);
    lemma_decimal(4503599627370496, 1023, 2251799813685248, 2, 1);
    lemma_decimal(8106479329266893, 1022, 4503599627370496, 18, 10);
    lemma_decimal(7205759403792794, 1022, 4503599627370496, 16, 10);
}

/// The constants from -1.4 to -0.45 encode the decimals that they name.
pub proof fn decimals_5()
    ensures
        encodes(M1_4, true, 14, 10),
        encodes(M1, true, 1, 1),
        encodes(M0_75, true, 75, 100),
        encodes(M0_55, true, 55, 100),
        encodes(M0_5, true, 5, 10),
        encodes(M0_45, true, 45, 100),
{
    lemma2_to64();
    lemma2_to64_rest();
    lemma_decimal(6305039478318694, 1022, 4503599627370496, 14, 10);
    lemma_decimal(4503599627370496, 1022, 4503599627370496, 1, 1);
    lemma_decimal(6755399441055744, 1021, 9007199254740992, 75, 100);
    lemma_decimal(4953959590107546, 1021, 9007199254740992, 55, 100);
    lemma_decimal(4503599627370496, 1021, 9007199254740992, 5, 10);
    lemma_decimal(8106479329266893, 1020, 18014398509481984, 45, 100);
}

/// The constants from -0.35 to -0.12 encode the decimals that they name.
pub proof fn decimals_6()
    ensures
        encodes(M0_35, true, 35, 100),
        encodes(M0_31, true, 31, 100),
        encodes(M0_2, true, 2, 10),
        encodes(M0_16, true, 16, 100),
        encodes(M0_15, true, 15, 100),
        encodes(M0_12, true, 12, 100),
{
    lemma2_to64();
    lemma2_to64_rest();
    lemma_decimal(6305039478318694, 1020, 18014398509481984, 35, 100);
    lemma_decimal(5584463537939415, 1020, 18014398509481984, 31, 100);
    lemma_decimal(7205759403792794, 1019, 36028797018963968, 2, 10);
    lemma_decimal(5764607523034235, 1019, 36028797018963968, 16, 100);
    lemma_decimal(5404319552844595, 1019, 36028797018963968, 15, 100);
    lemma_decimal(8646911284551352, 1018, 72057594037927936, 12, 100);
}

/// The constants from -0.09 to 0 encode the decimals that they name.
pub proof fn decimals_7()
    ensures
        encodes(M0_09, true, 9, 100),
        encodes(M0_02, true, 2, 100),
        encodes(M0_015, true, 15, 1000),
        encodes(M0_004, true, 4, 1000),
        encodes(M1EM6, true, 1, 1000000),
        encodes(D0, false, 0, 1),
{
    lemma2_to64();
    lemma2_to64_rest();
    lemma_pow2_adds(64, 8);
    lemma_decimal(6485183463413514, 1018, 72057594037927936, 9, 100);
    lemma_decimal(5764607523034235, 1016, 288230376151711744, 2, 100);
    lemma_decimal(8646911284551352, 1015, 576460752303423488, 15, 1000);
    lemma_decimal(4611686018427388, 1014, 1152921504606846976, 4, 1000);
    lemma_decimal(4722366482869645, 1002, 4722366482869645213696, 1, 1000000);
    assert(crate::binary64::magnitude_value(0) == 0 && crate::binary64::magnitude_value(1) == 1);
}

/// The constants from 1e-18 to 1e-6 encode the decimals that they name.
pub proof fn decimals_8()
    ensures
        encodes(D1EM18, false, 1, 1000000000000000000),
        encodes(D1EM12, false, 1, 1000000000000),
        encodes(D1EM10, false, 1, 10000000000),
        encodes(D1EM9, false, 1, 1000000000),
        encodes(D1EM8, false, 1, 100000000),
        encodes(D1EM6, false, 1, 1000000),
{
    lemma2_to64();
    lemma2_to64_rest();
    lemma_pow2_adds(64, 8);
    lemma_pow2_adds(64, 15);
    lemma_pow2_adds(64, 18);
    lemma_pow2_adds(64, 22);
    lemma_pow2_adds(64, 28);
    lemma_pow2_adds(64, 48);
    lemma_decimal(5192296858534828, 962, 5192296858534827628530496329220096, 1, 1000000000000000000);
    lemma_decimal(4951760157141521, 982, 4951760157141521099596496896, 1, 1000000000000);
    lemma_decimal(7737125245533627, 988, 77371252455336267181195264, 1, 10000000000);
    lemma_decimal(4835703278458517, 992, 4835703278458516698824704, 1, 1000000000);
    lemma_decimal(6044629098073146, 995, 604462909807314587353088, 1, 100000000);
    lemma_decimal(4722366482869645, 1002, 4722366482869645213696, 1, 1000000);
}

/// The constants from 1.458e-6 to 0.001 encode the decimals that they name.
pub proof fn decimals_9()
    ensures
        encodes(D1_458EM6, false, 1458, 1000000000),
        encodes(D0_0000181, false, 181, 10000000),
        encodes(D0_0001, false, 1, 10000),
        encodes(D1EM4, false, 1, 10000),
        encodes(D0_000123456789, false, 123456789, 1000000000000),
        encodes(D0_001, false, 1, 1000),
{
    lemma2_to64();
    lemma2_to64_rest();
    lemma_pow2_adds(64, 1);
    lemma_pow2_adds(64, 2);
    lemma_pow2_adds(64, 4);
    lemma_pow2_adds(64, 8);
    lemma_decimal(6885210332023943, 1002, 4722366482869645213696, 1458, 1000000000);
    lemma_decimal(5342177083746286, 1006, 295147905179352825856, 181, 10000000);
    lemma_decimal(7378697629483821, 1008, 73786976294838206464, 1, 10000);
    lemma_decimal(7378697629483821, 1008, 73786976294838206464, 1, 10000);
    lemma_decimal(4554751581689921, 1009, 36893488147419103232, 123456789, 1000000000000);
    lemma_decimal(4611686018427388, 1012, 4611686018427387904, 1, 1000);
}

/// The constants from 1e-3 to 0.0065 encode the decimals that they name.
pub proof fn decimals_10()
    ensures
        encodes(D1EM3, false, 1, 1000),
        encodes(D0_002, false, 2, 1000),
        encodes(D0_0028, false, 28, 10000),
        encodes(D0_003, false, 3, 1000),
        encodes(D0_005, false, 5, 1000),
        encodes(D0_0065, false, 65, 10000),
{
    lemma2_to64();
    lemma2_to64_rest();
    lemma_decimal(4611686018427388, 1012, 4611686018427387904, 1, 1000);
    lemma_decimal(4611686018427388, 1013, 2305843009213693952, 2, 1000);
    lemma_decimal(6456360425798343, 1013, 2305843009213693952, 28, 10000);
    lemma_decimal(6917529027641082, 1013, 2305843009213693952, 3, 1000);
    lemma_decimal(5764607523034235, 1014, 1152921504606846976, 5, 1000);
    lemma_decimal(7493989779944505, 1014, 1152921504606846976, 65, 10000);
}

/// The constants from 0.008 to 0.02 encode the decimals that they name.
pub proof fn decimals_11()
    ensures
        encodes(D0_008, false, 8, 1000),
        encodes(D0_01, false, 1, 100),
        encodes(D0_015, false, 15, 1000),
        encodes(D0_016666666666666666, false, 16666666666666666, 1000000000000000000),
        encodes(D0_017453292519943295, false, 17453292519943295, 1000000000000000000),
        encodes(D0_02, false, 2, 100),
{
    lemma2_to64();
    lemma2_to64_rest();
    lemma_decimal(4611686018427388, 1015, 576460752303423488, 8, 1000);
    lemma_decimal(5764607523034235, 1015, 576460752303423488, 1, 100);
    lemma_decimal(8646911284551352, 1015, 576460752303423488, 15, 1000);
    lemma_decimal(4803839602528529, 1016, 288230376151711744, 16666666666666666, 1000000000000000000);
    lemma_decimal(5030569068109113, 1016, 288230376151711744, 17453292519943295, 1000000000000000000);
    lemma_decimal(5764607523034235, 1016, 288230376151711744, 2, 100);
}

/// The constants from 0.03 to 0.074 encode the decimals that they name.
pub proof fn decimals_12()
    ensures
        encodes(D0_03, false, 3, 100),
        encodes(D0_04, false, 4, 100),
        encodes(D0_05, false, 5, 100),
        encodes(D0_06, false, 6, 100),
        encodes(D0_07, false, 7, 100),
        encodes(D0_074, false, 74, 1000),
{
    lemma2_to64();
    lemma2_to64_rest();
    lemma_decimal(8646911284551352, 1016, 288230376151711744, 3, 100);
    lemma_decimal(5764607523034235, 1017, 144115188075855872, 4, 100);
    lemma_decimal(7205759403792794, 1017, 144115188075855872, 5, 100);
    lemma_decimal(8646911284551352, 1017, 144115188075855872, 6, 100);
    lemma_decimal(5044031582654956, 1018, 72057594037927936, 7, 100);
    lemma_decimal(5332261958806667, 1018, 72057594037927936, 74, 1000);
}

/// The constants from 0.08 to 0.14 encode the decimals that they name.
pub proof fn decimals_13()
    ensures
        encodes(D0_08, false, 8, 100),
        encodes(D0_09, false, 9, 100),
        encodes(D0_1, false, 1, 10),
        encodes(D0_1031, false, 1031, 10000),
        encodes(D0_12, false, 12, 100),
        encodes(D0_14, false, 14, 100),
{
    lemma2_to64();
    lemma2_to64_rest();
    lemma_decimal(5764607523034235, 1018, 72057594037927936, 8, 100);
    lemma_decimal(6485183463413514, 1018, 72057594037927936, 9, 100);
    lemma_decimal(7205759403792794, 1018, 72057594037927936, 1, 10);
    lemma_decimal(7429137945310370, 1018, 72057594037927936, 1031, 10000);
    lemma_decimal(8646911284551352, 1018, 72057594037927936, 12, 100);
    lemma_decimal(5044031582654956, 1019, 36028797018963968, 14, 100);
}

/// The constants from 0.15 to 0.3 encode the decimals that they name.
pub proof fn decimals_14()
    ensures
        encodes(D0_15, false, 15, 100),
        encodes(D0_16, false, 16, 100),
        encodes(D0_2, false, 2, 10),
        encodes(D0_25, false, 25, 100),
        encodes(D0_28, false, 28, 100),
        encodes(D0_3, false, 3, 10),
{
    lemma2_to64();
    lemma2_to64_rest();
    lemma_decimal(5404319552844595, 1019, 36028797018963968, 15, 100);
    lemma_decimal(5764607523034235, 1019, 36028797018963968, 16, 100);
    lemma_decimal(7205759403792794, 1019, 36028797018963968, 2, 10);
    lemma_decimal(4503599627370496, 1020, 18014398509481984, 25, 100);
    lemma_decimal(5044031582654956, 1020, 18014398509481984, 28, 100);
    lemma_decimal(5404319552844595, 1020, 18014398509481984, 3, 10);
}

/// The constants from 0.316624790355 to 0.42 encode the decimals that they name.
pub proof fn decimals_15()
    ensures
        encodes(D0_316624790355, false, 316624790355, 1000000000000),
        encodes(D0_32, false, 32, 100),
        encodes(D0_35, false, 35, 100),
        encodes(D0_381966011250105, false, 381966011250105, 1000000000000000),
        encodes(D0_4, false, 4, 10),
        encodes(D0_42, false, 42, 100),
{
    lemma2_to64();
    lemma2_to64_rest();
    lemma_decimal(5703805151436158, 1020, 18014398509481984, 316624790355, 1000000000000);
    lemma_decimal(5764607523034235, 1020, 18014398509481984, 32, 100);
    lemma_decimal(6305039478318694, 1020, 18014398509481984, 35, 100);
    lemma_decimal(6880887943736670, 1020, 18014398509481984, 381966011250105, 1000000000000000);
    lemma_decimal(7205759403792794, 1020, 18014398509481984, 4, 10);
    lemma_decimal(7566047373982433, 1020, 18014398509481984, 42, 100);
}

/// The constants from 0.45 to 0.618033988749895 encode the decimals that they name.
pub proof fn decimals_16()
    ensures
        encodes(D0_45, false, 45, 100),
        encodes(D0_5, false, 5, 10),
        encodes(D0_55, false, 55, 100),
        encodes(D0_574, false, 574, 1000),
        encodes(D0_6, false, 6, 10),
        encodes(D0_618033988749895, false, 618033988749895, 1000000000000000),
{
    lemma2_to64();
    lemma2_to64_rest();
    lemma_decimal(8106479329266893, 1020, 18014398509481984, 45, 100);
    lemma_decimal(4503599627370496, 1021, 9007199254740992, 5, 10);
    lemma_decimal(4953959590107546, 1021, 9007199254740992, 55, 100);
    lemma_decimal(5170132372221329, 1021, 9007199254740992, 574, 1000);
    lemma_decimal(5404319552844595, 1021, 9007199254740992, 6, 10);
    lemma_decimal(5566755282872657, 1021, 9007199254740992, 618033988749895, 1000000000000000);
}

/// The constants from 0.62 to 0.85 encode the decimals that they name.
pub proof fn decimals_17()
    ensures
        encodes(D0_62, false, 62, 100),
        encodes(D0_65, false, 65, 100),
        encodes(D0_7, false, 7, 10),
        encodes(D0_75, false, 75, 100),
        encodes(D0_8, false, 8, 10),
        encodes(D0_85, false, 85, 100),
{
    lemma2_to64();
    lemma2_to64_rest();
    lemma_decimal(5584463537939415, 1021, 9007199254740992, 62, 100);
    lemma_decimal(5854679515581645, 1021, 9007199254740992, 65, 100);
    lemma_decimal(6305039478318694, 1021, 9007199254740992, 7, 10);
    lemma_decimal(6755399441055744, 1021, 9007199254740992, 75, 100);
    lemma_decimal(7205759403792794, 1021, 9007199254740992, 8, 10);
    lemma_decimal(7656119366529843, 1021, 9007199254740992, 85, 100);
}

/// The constants from 0.9 to 1.1 encode the decimals that they name.
pub proof fn decimals_18()
    ensures
        encodes(D0_9, false, 9, 10),
        encodes(D0_95, false, 95, 100),
        encodes(D0_99, false, 99, 100),
        encodes(D0_999999999, false, 999999999, 1000000000),
        encodes(D1, false, 1, 1),
        encodes(D1_1, false, 11, 10),
{
    lemma2_to64();
    lemma2_to64_rest();
    lemma_decimal(8106479329266893, 1021, 9007199254740992, 9, 10);
    lemma_decimal(8556839292003942, 1021, 9007199254740992, 95, 100);
    lemma_decimal(8917127262193582, 1021, 9007199254740992, 99, 100);
    lemma_decimal(9007199245733793, 1021, 9007199254740992, 999999999, 1000000000);
    lemma_decimal(4503599627370496, 1022, 4503599627370496, 1, 1);
    lemma_decimal(4953959590107546, 1022, 4503599627370496, 11, 10);
}

/// The constants from 1.15 to 1.4 encode the decimals that they name.
pub proof fn decimals_19()
    ensures
        encodes(D1_15, false, 115, 100),
        encodes(D1_2, false, 12, 10),
        encodes(D1_225, false, 1225, 1000),
        encodes(D1_3, false, 13, 10),
        encodes(D1_35, false, 135, 100),
        encodes(D1_4, false, 14, 10),
{
    lemma2_to64();
    lemma2_to64_rest();
    lemma_decimal(5179139571476070, 1022, 4503599627370496, 115, 100);
    lemma_decimal(5404319552844595, 1022, 4503599627370496, 12, 10);
    lemma_decimal(5516909543528858, 1022, 4503599627370496, 1225, 1000);
    lemma_decimal(5854679515581645, 1022, 4503599627370496, 13, 10);
    lemma_decimal(6079859496950170, 1022, 4503599627370496, 135, 100);
    lemma_decimal(6305039478318694, 1022, 4503599627370496, 14, 10);
}

/// The constants from 1.5 to 1.9 encode the decimals that they name.
pub proof fn decimals_20()
    ensures
        encodes(D1_5, false, 15, 10),
        encodes(D1_6, false, 16, 10),
        encodes(D1_65, false, 165, 100),
        encodes(D1_7, false, 17, 10),
        encodes(D1_8, false, 18, 10),
        encodes(D1_9, false, 19, 10),
{
    lemma2_to64();
    lemma2_to64_rest();
    lemma_decimal(6755399441055744, 1022, 4503599627370496, 15, 10);
    lemma_decimal(7205759403792794, 1022, 4503599627370496, 16, 10);
    lemma_decimal(7430939385161318, 1022, 4503599627370496, 165, 100);
    lemma_decimal(7656119366529843, 1022, 4503599627370496, 17, 10);
    lemma_decimal(8106479329266893, 1022, 4503599627370496, 18, 10);
    lemma_decimal(8556839292003942, 1022, 4503599627370496, 19, 10);
}

/// The constants from 1.94384 to 2.3 encode the decimals that they name.
pub proof fn decimals_21()
    ensures
        encodes(D1_94384, false, 194384, 100000),
        encodes(D1_95, false, 195, 100),
        encodes(D2, false, 2, 1),
        encodes(D2_2, false, 22, 10),
        encodes(D2_25, false, 225, 100),
        encodes(D2_3, false, 23, 10),
{
    lemma2_to64();
    lemma2_to64_rest();
    lemma_decimal(8754277099667865, 1022, 4503599627370496, 194384, 100000);
    lemma_decimal(8782019273372467, 1022, 4503599627370496, 195, 100);
    lemma_decimal(4503599627370496, 1023, 2251799813685248, 2, 1);
    lemma_decimal(4953959590107546, 1023, 2251799813685248, 22, 10);
    lemma_decimal(5066549580791808, 1023, 2251799813685248, 225, 100);
    lemma_decimal(5179139571476070, 1023, 2251799813685248, 23, 10);
}

/// The constants from 2.4 to 3.141592653589793 encode the decimals that they name.
pub proof fn decimals_22()
    ensures
        encodes(D2_4, false, 24, 10),
        encodes(D2_5, false, 25, 10),
        encodes(D2_6, false, 26, 10),
        encodes(D2_8, false, 28, 10),
        encodes(D3, false, 3, 1),
        encodes(D3_141592653589793, false, 3141592653589793, 1000000000000000),
{
    lemma2_to64();
    lemma2_to64_rest();
    lemma_decimal(5404319552844595, 1023, 2251799813685248, 24, 10);
    lemma_decimal(5629499534213120, 1023, 2251799813685248, 25, 10);
    lemma_decimal(5854679515581645, 1023, 2251799813685248, 26, 10);
    lemma_decimal(6305039478318694, 1023, 2251799813685248, 28, 10);
    lemma_decimal(6755399441055744, 1023, 2251799813685248, 3, 1);
    lemma_decimal(7074237752028440, 1023, 2251799813685248, 3141592653589793, 1000000000000000);
}

/// The constants from 3.28084 to 3.95642 encode the decimals that they name.
pub proof fn decimals_23()
    ensures
        encodes(D3_28084, false, 328084, 100000),
        encodes(D3_3, false, 33, 10),
        encodes(D3_4, false, 34, 10),
        encodes(D3_5, false, 35, 10),
        encodes(D3_7, false, 37, 10),
        encodes(D3_95642, false, 395642, 100000),
{
    lemma2_to64();
    lemma2_to64_rest();
    lemma_decimal(7387794900731109, 1023, 2251799813685248, 328084, 100000);
    lemma_decimal(7430939385161318, 1023, 2251799813685248, 33, 10);
    lemma_decimal(7656119366529843, 1023, 2251799813685248, 34, 10);
    lemma_decimal(7881299347898368, 1023, 2251799813685248, 35, 10);
    lemma_decimal(8331659310635418, 1023, 2251799813685248, 37, 10);
    lemma_decimal(8909065818860589, 1023, 2251799813685248, 395642, 100000);
}

/// The constants from 4 to 6 encode the decimals that they name.
pub proof fn decimals_24()
    ensures
        encodes(D4, false, 4, 1),
        encodes(D4_5, false, 45, 10),
        encodes(D5, false, 5, 1),
        encodes(D5_2, false, 52, 10),
        encodes(D5_5, false, 55, 10),
        encodes(D6, false, 6, 1),
{
    lemma2_to64();
    lemma2_to64_rest();
    lemma_decimal(4503599627370496, 1024, 1125899906842624, 4, 1);
    lemma_decimal(5066549580791808, 1024, 1125899906842624, 45, 10);
    lemma_decimal(5629499534213120, 1024, 1125899906842624, 5, 1);
    lemma_decimal(5854679515581645, 1024, 1125899906842624, 52, 10);
    lemma_decimal(6192449487634432, 1024, 1125899906842624, 55, 10);
    lemma_decimal(6755399441055744, 1024, 1125899906842624, 6, 1);
}

/// The constants from 6.05 to 8 encode the decimals that they name.
pub proof fn decimals_25()
    ensures
        encodes(D6_05, false, 605, 100),
        encodes(D6_2831853, false, 62831853, 10000000),
        encodes(D6_283185307179586, false, 6283185307179586, 1000000000000000),
        encodes(D7, false, 7, 1),
        encodes(D7_5, false, 75, 10),
        encodes(D8, false, 8, 1),
{
    lemma2_to64();
    lemma2_to64_rest();
    lemma_decimal(6811694436397875, 1024, 1125899906842624, 605, 100);
    lemma_decimal(7074237743944945, 1024, 1125899906842624, 62831853, 10000000);
    lemma_decimal(7074237752028440, 1024, 1125899906842624, 6283185307179586, 1000000000000000);
    lemma_decimal(7881299347898368, 1024, 1125899906842624, 7, 1);
    lemma_decimal(8444249301319680, 1024, 1125899906842624, 75, 10);
    lemma_decimal(4503599627370496, 1025, 562949953421312, 8, 1);
}

/// The constants from 9 to 13 encode the decimals that they name.
pub proof fn decimals_26()
    ensures
        encodes(D9, false, 9, 1),
        encodes(D9_80665, false, 980665, 100000),
        encodes(D10, false, 10, 1),
        encodes(D12, false, 12, 1),
        encodes(D12_9898, false, 129898, 10000),
        encodes(D13, false, 13, 1),
{
    lemma2_to64();
    lemma2_to64_rest();
    lemma_decimal(5066549580791808, 1025, 562949953421312, 9, 1);
    lemma_decimal(5520653160719109, 1025, 562949953421312, 980665, 100000);
    lemma_decimal(5629499534213120, 1025, 562949953421312, 10, 1);
    lemma_decimal(6755399441055744, 1025, 562949953421312, 12, 1);
    lemma_decimal(7312607304952159, 1025, 562949953421312, 129898, 10000);
    lemma_decimal(7318349394477056, 1025, 562949953421312, 13, 1);
}

/// The constants from 13.2 to 16.8 encode the decimals that they name.
pub proof fn decimals_27()
    ensures
        encodes(D13_2, false, 132, 10),
        encodes(D13_5, false, 135, 10),
        encodes(D14_5, false, 145, 10),
        encodes(D15, false, 15, 1),
        encodes(D16, false, 16, 1),
        encodes(D16_8, false, 168, 10),
{
    lemma2_to64();
    lemma2_to64_rest();
    lemma_decimal(7430939385161318, 1025, 562949953421312, 132, 10);
    lemma_decimal(7599824371187712, 1025, 562949953421312, 135, 10);
    lemma_decimal(8162774324609024, 1025, 562949953421312, 145, 10);
    lemma_decimal(8444249301319680, 1025, 562949953421312, 15, 1);
    lemma_decimal(4503599627370496, 1026, 281474976710656, 16, 1);
    lemma_decimal(4728779608739021, 1026, 281474976710656, 168, 10);
}

/// The constants from 18 to 32 encode the decimals that they name.
pub proof fn decimals_28()
    ensures
        encodes(D18, false, 18, 1),
        encodes(D20, false, 20, 1),
        encodes(D21, false, 21, 1),
        encodes(D25, false, 25, 1),
        encodes(D30, false, 30, 1),
        encodes(D32, false, 32, 1),
{
    lemma2_to64();
    lemma2_to64_rest();
    lemma_decimal(5066549580791808, 1026, 281474976710656, 18, 1);
    lemma_decimal(5629499534213120, 1026, 281474976710656, 20, 1);
    lemma_decimal(5910974510923776, 1026, 281474976710656, 21, 1);
    lemma_decimal(7036874417766400, 1026, 281474976710656, 25, 1);
    lemma_decimal(8444249301319680, 1026, 281474976710656, 30, 1);
    lemma_decimal(4503599627370496, 1027, 140737488355328, 32, 1);
}

/// The constants from 35 to 50 encode the decimals that they name.
pub proof fn decimals_29()
    ensures
        encodes(D35, false, 35, 1),
        encodes(D37, false, 37, 1),
        encodes(D38, false, 38, 1),
        encodes(D40, false, 40, 1),
        encodes(D45, false, 45, 1),
        encodes(D50, false, 50, 1),
{
    lemma2_to64();
    lemma2_to64_rest();
    lemma_decimal(4925812092436480, 1027, 140737488355328, 35, 1);
    lemma_decimal(5207287069147136, 1027, 140737488355328, 37, 1);
    lemma_decimal(5348024557502464, 1027, 140737488355328, 38, 1);
    lemma_decimal(5629499534213120, 1027, 140737488355328, 40, 1);
    lemma_decimal(6333186975989760, 1027, 140737488355328, 45, 1);
    lemma_decimal(7036874417766400, 1027, 140737488355328, 50, 1);
}

/// The constants from 57.29577951308232 to 99.9 encode the decimals that they name.
pub proof fn decimals_30()
    ensures
        encodes(D57_29577951308232, false, 5729577951308232, 100000000000000),
        encodes(D60, false, 60, 1),
        encodes(D66_93887, false, 6693887, 100000),
        encodes(D78_233, false, 78233, 1000),
        encodes(D80, false, 80, 1),
        encodes(D99_9, false, 999, 10),
{
    lemma2_to64();
    lemma2_to64_rest();
    lemma_decimal(8063664102031864, 1027, 140737488355328, 5729577951308232, 100000000000000);
    lemma_decimal(8444249301319680, 1027, 140737488355328, 60, 1);
    lemma_decimal(4710404218571907, 1028, 70368744177664, 6693887, 100000);
    lemma_decimal(5505157963251188, 1028, 70368744177664, 78233, 1000);
    lemma_decimal(5629499534213120, 1028, 70368744177664, 80, 1);
    lemma_decimal(7029837543348634, 1028, 70368744177664, 999, 10);
}

/// The constants from 100 to 214.65 encode the decimals that they name.
pub proof fn decimals_31()
    ensures
        encodes(D100, false, 100, 1),
        encodes(D110_4, false, 1104, 10),
        encodes(D110_9063, false, 1109063, 10000),
        encodes(D120, false, 120, 1),
        encodes(D200, false, 200, 1),
        encodes(D214_65, false, 21465, 100),
{
    lemma2_to64();
    lemma2_to64_rest();
    lemma_decimal(7036874417766400, 1028, 70368744177664, 100, 1);
    lemma_decimal(7768709357214106, 1028, 70368744177664, 1104, 10);
    lemma_decimal(7804337052391257, 1028, 70368744177664, 1109063, 10000);
    lemma_decimal(8444249301319680, 1028, 70368744177664, 120, 1);
    lemma_decimal(7036874417766400, 1029, 35184372088832, 200, 1);
    lemma_decimal(7552325468867789, 1029, 35184372088832, 21465, 100);
}

/// The constants from 216.65 to 287.05287 encode the decimals that they name.
pub proof fn decimals_32()
    ensures
        encodes(D216_65, false, 21665, 100),
        encodes(D228_65, false, 22865, 100),
        encodes(D266_5, false, 2665, 10),
        encodes(D270_65, false, 27065, 100),
        encodes(D273_15, false, 27315, 100),
        encodes(D287_05287, false, 28705287, 100000),
{
    lemma2_to64();
    lemma2_to64_rest();
    lemma_decimal(7622694213045453, 1029, 35184372088832, 21665, 100);
    lemma_decimal(8044906678111437, 1029, 35184372088832, 22865, 100);
    lemma_decimal(4688317580836864, 1030, 17592186044416, 2665, 10);
    lemma_decimal(4761325152921190, 1030, 17592186044416, 27065, 100);
    lemma_decimal(4805305618032230, 1030, 17592186044416, 27315, 100);
    lemma_decimal(5049887493623560, 1030, 17592186044416, 28705287, 100000);
}

/// The constants from 288.15 to 533 encode the decimals that they name.
pub proof fn decimals_33()
    ensures
        encodes(D288_15, false, 28815, 100),
        encodes(D300, false, 300, 1),
        encodes(D360, false, 360, 1),
        encodes(D400, false, 400, 1),
        encodes(D500, false, 500, 1),
        encodes(D533, false, 533, 1),
{
    lemma2_to64();
    lemma2_to64_rest();
    lemma_decimal(5069188408698470, 1030, 17592186044416, 28815, 100);
    lemma_decimal(5277655813324800, 1030, 17592186044416, 300, 1);
    lemma_decimal(6333186975989760, 1030, 17592186044416, 360, 1);
    lemma_decimal(7036874417766400, 1030, 17592186044416, 400, 1);
    lemma_decimal(8796093022208000, 1030, 17592186044416, 500, 1);
    lemma_decimal(4688317580836864, 1031, 8796093022208, 533, 1);
}

/// The constants from 800 to 1500 encode the decimals that they name.
pub proof fn decimals_34()
    ensures
        encodes(D800, false, 800, 1),
        encodes(D868_0187, false, 8680187, 10000),
        encodes(D1000, false, 1000, 1),
        encodes(D1197, false, 1197, 1),
        encodes(D1200, false, 1200, 1),
        encodes(D1500, false, 1500, 1),
{
    lemma2_to64();
    lemma2_to64_rest();
    lemma_decimal(7036874417766400, 1031, 8796093022208, 800, 1);
    lemma_decimal(7635173230216059, 1031, 8796093022208, 8680187, 10000);
    lemma_decimal(8796093022208000, 1031, 8796093022208, 1000, 1);
    lemma_decimal(5264461673791488, 1032, 4398046511104, 1197, 1);
    lemma_decimal(5277655813324800, 1032, 4398046511104, 1200, 1);
    lemma_decimal(6597069766656000, 1032, 4398046511104, 1500, 1);
}

/// The constants from 2500 to 7999 encode the decimals that they name.
pub proof fn decimals_35()
    ensures
        encodes(D2500, false, 2500, 1),
        encodes(D3600, false, 3600, 1),
        encodes(D5000, false, 5000, 1),
        encodes(D5400, false, 5400, 1),
        encodes(D7000, false, 7000, 1),
        encodes(D7999, false, 7999, 1),
{
    lemma2_to64();
    lemma2_to64_rest();
    lemma_decimal(5497558138880000, 1033, 2199023255552, 2500, 1);
    lemma_decimal(7916483719987200, 1033, 2199023255552, 3600, 1);
    lemma_decimal(5497558138880000, 1034, 1099511627776, 5000, 1);
    lemma_decimal(5937362789990400, 1034, 1099511627776, 5400, 1);
    lemma_decimal(7696581394432000, 1034, 1099511627776, 7000, 1);
    lemma_decimal(8794993510580224, 1034, 1099511627776, 7999, 1);
}

/// The constants from 9000 to 19999.875 encode the decimals that they name.
pub proof fn decimals_36()
    ensures
        encodes(D9000, false, 9000, 1),
        encodes(D10999_875, false, 10999875, 1000),
        encodes(D11000, false, 11000, 1),
        encodes(D11000_125, false, 11000125, 1000),
        encodes(D12000, false, 12000, 1),
        encodes(D19999_875, false, 19999875, 1000),
{
    lemma2_to64();
    lemma2_to64_rest();
    lemma_decimal(4947802324992000, 1035, 549755813888, 9000, 1);
    lemma_decimal(6047245233291264, 1035, 549755813888, 10999875, 1000);
    lemma_decimal(6047313952768000, 1035, 549755813888, 11000, 1);
    lemma_decimal(6047382672244736, 1035, 549755813888, 11000125, 1000);
    lemma_decimal(6597069766656000, 1035, 549755813888, 12000, 1);
    lemma_decimal(5497523779141632, 1036, 274877906944, 19999875, 1000);
}

/// The constants from 20000 to 32000 encode the decimals that they name.
pub proof fn decimals_37()
    ensures
        encodes(D20000, false, 20000, 1),
        encodes(D20000_125, false, 20000125, 1000),
        encodes(D22000, false, 22000, 1),
        encodes(D22632_06, false, 2263206, 100),
        encodes(D31999_875, false, 31999875, 1000),
        encodes(D32000, false, 32000, 1),
{
    lemma2_to64();
    lemma2_to64_rest();
    lemma_decimal(5497558138880000, 1036, 274877906944, 20000, 1);
    lemma_decimal(5497592498618368, 1036, 274877906944, 20000125, 1000);
    lemma_decimal(6047313952768000, 1036, 274877906944, 22000, 1);
    lemma_decimal(6221053282631025, 1036, 274877906944, 2263206, 100);
    lemma_decimal(8796058662469632, 1036, 274877906944, 31999875, 1000);
    lemma_decimal(8796093022208000, 1036, 274877906944, 32000, 1);
}

/// The constants from 32000.125 to 47000.125 encode the decimals that they name.
pub proof fn decimals_38()
    ensures
        encodes(D32000_125, false, 32000125, 1000),
        encodes(D42000, false, 42000, 1),
        encodes(D43758_5453, false, 437585453, 10000),
        encodes(D46999_875, false, 46999875, 1000),
        encodes(D47000, false, 47000, 1),
        encodes(D47000_125, false, 47000125, 1000),
{
    lemma2_to64();
    lemma2_to64_rest();
    lemma_decimal(8796127381946368, 1036, 274877906944, 32000125, 1000);
    lemma_decimal(5772436045824000, 1037, 137438953472, 42000, 1);
    lemma_decimal(6014128671489104, 1037, 137438953472, 437585453, 10000);
    lemma_decimal(6459613633314816, 1037, 137438953472, 46999875, 1000);
    lemma_decimal(6459630813184000, 1037, 137438953472, 47000, 1);
    lemma_decimal(6459647993053184, 1037, 137438953472, 47000125, 1000);
}

/// The constants from 50999.875 to 71000.125 encode the decimals that they name.
pub proof fn decimals_39()
    ensures
        encodes(D50999_875, false, 50999875, 1000),
        encodes(D51000, false, 51000, 1),
        encodes(D51000_125, false, 51000125, 1000),
        encodes(D70999_875, false, 70999875, 1000),
        encodes(D71000, false, 71000, 1),
        encodes(D71000_125, false, 71000125, 1000),
{
    lemma2_to64();
    lemma2_to64_rest();
    lemma_decimal(7009369447202816, 1037, 137438953472, 50999875, 1000);
    lemma_decimal(7009386627072000, 1037, 137438953472, 51000, 1);
    lemma_decimal(7009403806941184, 1037, 137438953472, 51000125, 1000);
    lemma_decimal(4879074258321408, 1038, 68719476736, 70999875, 1000);
    lemma_decimal(4879082848256000, 1038, 68719476736, 71000, 1);
    lemma_decimal(4879091438190592, 1038, 68719476736, 71000125, 1000);
}

/// The constants from 86000 to 6356766 encode the decimals that they name.
pub proof fn decimals_40()
    ensures
        encodes(D86000, false, 86000, 1),
        encodes(D100000, false, 100000, 1),
        encodes(D101325, false, 101325, 1),
        encodes(D119000, false, 119000, 1),
        encodes(D6356766, false, 6356766, 1),
{
    lemma2_to64();
    lemma2_to64_rest();
    lemma_decimal(5909874999296000, 1038, 68719476736, 86000, 1);
    lemma_decimal(6871947673600000, 1038, 68719476736, 100000, 1);
    lemma_decimal(6963000980275200, 1038, 68719476736, 101325, 1);
    lemma_decimal(8177617731584000, 1038, 68719476736, 119000, 1);
    lemma_decimal(6825525519581184, 1044, 1073741824, 6356766, 1);
}

} // verus!
