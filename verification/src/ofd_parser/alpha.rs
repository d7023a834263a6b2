//! Text of an opacity `a / 255` as `f64` `Display` writes it (the shortest
//! decimal that reads back as the same double).

use vstd::prelude::*;

verus! {

/// `format!("{}", a as f64 / 255.0)`.
pub open spec fn alpha_text(a: u8) -> Seq<char> {
    if a == 0 {
        "0"@
    } else if a == 1 {
        "0.00392156862745098"@
    } else if a == 2 {
        "0.00784313725490196"@
    } else if a == 3 {
        "0.011764705882352941"@
    } else if a == 4 {
        "0.01568627450980392"@
    } else if a == 5 {
        "0.0196078431372549"@
    } else if a == 6 {
        "0.023529411764705882"@
    } else if a == 7 {
        "0.027450980392156862"@
    } else if a == 8 {
        "0.03137254901960784"@
    } else if a == 9 {
        "0.03529411764705882"@
    } else if a == 10 {
        "0.0392156862745098"@
    } else if a == 11 {
        "0.043137254901960784"@
    } else if a == 12 {
        "0.047058823529411764"@
    } else if a == 13 {
        "0.050980392156862744"@
    } else if a == 14 {
        "0.054901960784313725"@
    } else if a == 15 {
        "0.058823529411764705"@
    } else if a == 16 {
        "0.06274509803921569"@
    } else if a == 17 {
        "0.06666666666666667"@
    } else if a == 18 {
        "0.07058823529411765"@
    } else if a == 19 {
        "0.07450980392156863"@
    } else if a == 20 {
        "0.0784313725490196"@
    } else if a == 21 {
        "0.08235294117647059"@
    } else if a == 22 {
        "0.08627450980392157"@
    } else if a == 23 {
        "0.09019607843137255"@
    } else if a == 24 {
        "0.09411764705882353"@
    } else if a == 25 {
        "0.09803921568627451"@
    } else if a == 26 {
        "0.10196078431372549"@
    } else if a == 27 {
        "0.10588235294117647"@
    } else if a == 28 {
        "0.10980392156862745"@
    } else if a == 29 {
        "0.11372549019607843"@
    } else if a == 30 {
        "0.11764705882352941"@
    } else if a == 31 {
        "0.12156862745098039"@
    } else if a == 32 {
        "0.12549019607843137"@
    } else if a == 33 {
        "0.12941176470588237"@
    } else if a == 34 {
        "0.13333333333333333"@
    } else if a == 35 {
        "0.13725490196078433"@
    } else if a == 36 {
        "0.1411764705882353"@
    } else if a == 37 {
        "0.1450980392156863"@
    } else if a == 38 {
        "0.14901960784313725"@
    } else if a == 39 {
        "0.15294117647058825"@
    } else if a == 40 {
        "0.1568627450980392"@
    } else if a == 41 {
        "0.1607843137254902"@
    } else if a == 42 {
        "0.16470588235294117"@
    } else if a == 43 {
        "0.16862745098039217"@
    } else if a == 44 {
        "0.17254901960784313"@
    } else if a == 45 {
        "0.17647058823529413"@
    } else if a == 46 {
        "0.1803921568627451"@
    } else if a == 47 {
        "0.1843137254901961"@
    } else if a == 48 {
        "0.18823529411764706"@
    } else if a == 49 {
        "0.19215686274509805"@
    } else if a == 50 {
        "0.19607843137254902"@
    } else if a == 51 {
        "0.2"@
    } else if a == 52 {
        "0.20392156862745098"@
    } else if a == 53 {
        "0.20784313725490197"@
    } else if a == 54 {
        "0.21176470588235294"@
    } else if a == 55 {
        "0.21568627450980393"@
    } else if a == 56 {
        "0.2196078431372549"@
    } else if a == 57 {
        "0.2235294117647059"@
    } else if a == 58 {
        "0.22745098039215686"@
    } else if a == 59 {
        "0.23137254901960785"@
    } else if a == 60 {
        "0.23529411764705882"@
    } else if a == 61 {
        "0.23921568627450981"@
    } else if a == 62 {
        "0.24313725490196078"@
    } else if a == 63 {
        "0.24705882352941178"@
    } else if a == 64 {
        "0.25098039215686274"@
    } else if a == 65 {
        "0.2549019607843137"@
    } else if a == 66 {
        "0.25882352941176473"@
    } else if a == 67 {
        "0.2627450980392157"@
    } else if a == 68 {
        "0.26666666666666666"@
    } else if a == 69 {
        "0.27058823529411763"@
    } else if a == 70 {
        "0.27450980392156865"@
    } else if a == 71 {
        "0.2784313725490196"@
    } else if a == 72 {
        "0.2823529411764706"@
    } else if a == 73 {
        "0.28627450980392155"@
    } else if a == 74 {
        "0.2901960784313726"@
    } else if a == 75 {
        "0.29411764705882354"@
    } else if a == 76 {
        "0.2980392156862745"@
    } else if a == 77 {
        "0.30196078431372547"@
    } else if a == 78 {
        "0.3058823529411765"@
    } else if a == 79 {
        "0.30980392156862746"@
    } else if a == 80 {
        "0.3137254901960784"@
    } else if a == 81 {
        "0.3176470588235294"@
    } else if a == 82 {
        "0.3215686274509804"@
    } else if a == 83 {
        "0.3254901960784314"@
    } else if a == 84 {
        "0.32941176470588235"@
    } else if a == 85 {
        "0.3333333333333333"@
    } else if a == 86 {
        "0.33725490196078434"@
    } else if a == 87 {
        "0.3411764705882353"@
    } else if a == 88 {
        "0.34509803921568627"@
    } else if a == 89 {
        "0.34901960784313724"@
    } else if a == 90 {
        "0.35294117647058826"@
    } else if a == 91 {
        "0.3568627450980392"@
    } else if a == 92 {
        "0.3607843137254902"@
    } else if a == 93 {
        "0.36470588235294116"@
    } else if a == 94 {
        "0.3686274509803922"@
    } else if a == 95 {
        "0.37254901960784315"@
    } else if a == 96 {
        "0.3764705882352941"@
    } else if a == 97 {
        "0.3803921568627451"@
    } else if a == 98 {
        "0.3843137254901961"@
    } else if a == 99 {
        "0.38823529411764707"@
    } else if a == 100 {
        "0.39215686274509803"@
    } else if a == 101 {
        "0.396078431372549"@
    } else if a == 102 {
        "0.4"@
    } else if a == 103 {
        "0.403921568627451"@
    } else if a == 104 {
        "0.40784313725490196"@
    } else if a == 105 {
        "0.4117647058823529"@
    } else if a == 106 {
        "0.41568627450980394"@
    } else if a == 107 {
        "0.4196078431372549"@
    } else if a == 108 {
        "0.4235294117647059"@
    } else if a == 109 {
        "0.42745098039215684"@
    } else if a == 110 {
        "0.43137254901960786"@
    } else if a == 111 {
        "0.43529411764705883"@
    } else if a == 112 {
        "0.4392156862745098"@
    } else if a == 113 {
        "0.44313725490196076"@
    } else if a == 114 {
        "0.4470588235294118"@
    } else if a == 115 {
        "0.45098039215686275"@
    } else if a == 116 {
        "0.4549019607843137"@
    } else if a == 117 {
        "0.4588235294117647"@
    } else if a == 118 {
        "0.4627450980392157"@
    } else if a == 119 {
        "0.4666666666666667"@
    } else if a == 120 {
        "0.47058823529411764"@
    } else if a == 121 {
        "0.4745098039215686"@
    } else if a == 122 {
        "0.47843137254901963"@
    } else if a == 123 {
        "0.4823529411764706"@
    } else if a == 124 {
        "0.48627450980392156"@
    } else if a == 125 {
        "0.49019607843137253"@
    } else if a == 126 {
        "0.49411764705882355"@
    } else if a == 127 {
        "0.4980392156862745"@
    } else if a == 128 {
        "0.5019607843137255"@
    } else if a == 129 {
        "0.5058823529411764"@
    } else if a == 130 {
        "0.5098039215686274"@
    } else if a == 131 {
        "0.5137254901960784"@
    } else if a == 132 {
        "0.5176470588235295"@
    } else if a == 133 {
        "0.5215686274509804"@
    } else if a == 134 {
        "0.5254901960784314"@
    } else if a == 135 {
        "0.5294117647058824"@
    } else if a == 136 {
        "0.5333333333333333"@
    } else if a == 137 {
        "0.5372549019607843"@
    } else if a == 138 {
        "0.5411764705882353"@
    } else if a == 139 {
        "0.5450980392156862"@
    } else if a == 140 {
        "0.5490196078431373"@
    } else if a == 141 {
        "0.5529411764705883"@
    } else if a == 142 {
        "0.5568627450980392"@
    } else if a == 143 {
        "0.5607843137254902"@
    } else if a == 144 {
        "0.5647058823529412"@
    } else if a == 145 {
        "0.5686274509803921"@
    } else if a == 146 {
        "0.5725490196078431"@
    } else if a == 147 {
        "0.5764705882352941"@
    } else if a == 148 {
        "0.5803921568627451"@
    } else if a == 149 {
        "0.5843137254901961"@
    } else if a == 150 {
        "0.5882352941176471"@
    } else if a == 151 {
        "0.592156862745098"@
    } else if a == 152 {
        "0.596078431372549"@
    } else if a == 153 {
        "0.6"@
    } else if a == 154 {
        "0.6039215686274509"@
    } else if a == 155 {
        "0.6078431372549019"@
    } else if a == 156 {
        "0.611764705882353"@
    } else if a == 157 {
        "0.615686274509804"@
    } else if a == 158 {
        "0.6196078431372549"@
    } else if a == 159 {
        "0.6235294117647059"@
    } else if a == 160 {
        "0.6274509803921569"@
    } else if a == 161 {
        "0.6313725490196078"@
    } else if a == 162 {
        "0.6352941176470588"@
    } else if a == 163 {
        "0.6392156862745098"@
    } else if a == 164 {
        "0.6431372549019608"@
    } else if a == 165 {
        "0.6470588235294118"@
    } else if a == 166 {
        "0.6509803921568628"@
    } else if a == 167 {
        "0.6549019607843137"@
    } else if a == 168 {
        "0.6588235294117647"@
    } else if a == 169 {
        "0.6627450980392157"@
    } else if a == 170 {
        "0.6666666666666666"@
    } else if a == 171 {
        "0.6705882352941176"@
    } else if a == 172 {
        "0.6745098039215687"@
    } else if a == 173 {
        "0.6784313725490196"@
    } else if a == 174 {
        "0.6823529411764706"@
    } else if a == 175 {
        "0.6862745098039216"@
    } else if a == 176 {
        "0.6901960784313725"@
    } else if a == 177 {
        "0.6941176470588235"@
    } else if a == 178 {
        "0.6980392156862745"@
    } else if a == 179 {
        "0.7019607843137254"@
    } else if a == 180 {
        "0.7058823529411765"@
    } else if a == 181 {
        "0.7098039215686275"@
    } else if a == 182 {
        "0.7137254901960784"@
    } else if a == 183 {
        "0.7176470588235294"@
    } else if a == 184 {
        "0.7215686274509804"@
    } else if a == 185 {
        "0.7254901960784313"@
    } else if a == 186 {
        "0.7294117647058823"@
    } else if a == 187 {
        "0.7333333333333333"@
    } else if a == 188 {
        "0.7372549019607844"@
    } else if a == 189 {
        "0.7411764705882353"@
    } else if a == 190 {
        "0.7450980392156863"@
    } else if a == 191 {
        "0.7490196078431373"@
    } else if a == 192 {
        "0.7529411764705882"@
    } else if a == 193 {
        "0.7568627450980392"@
    } else if a == 194 {
        "0.7607843137254902"@
    } else if a == 195 {
        "0.7647058823529411"@
    } else if a == 196 {
        "0.7686274509803922"@
    } else if a == 197 {
        "0.7725490196078432"@
    } else if a == 198 {
        "0.7764705882352941"@
    } else if a == 199 {
        "0.7803921568627451"@
    } else if a == 200 {
        "0.7843137254901961"@
    } else if a == 201 {
        "0.788235294117647"@
    } else if a == 202 {
        "0.792156862745098"@
    } else if a == 203 {
        "0.796078431372549"@
    } else if a == 204 {
        "0.8"@
    } else if a == 205 {
        "0.803921568627451"@
    } else if a == 206 {
        "0.807843137254902"@
    } else if a == 207 {
        "0.8117647058823529"@
    } else if a == 208 {
        "0.8156862745098039"@
    } else if a == 209 {
        "0.8196078431372549"@
    } else if a == 210 {
        "0.8235294117647058"@
    } else if a == 211 {
        "0.8274509803921568"@
    } else if a == 212 {
        "0.8313725490196079"@
    } else if a == 213 {
        "0.8352941176470589"@
    } else if a == 214 {
        "0.8392156862745098"@
    } else if a == 215 {
        "0.8431372549019608"@
    } else if a == 216 {
        "0.8470588235294118"@
    } else if a == 217 {
        "0.8509803921568627"@
    } else if a == 218 {
        "0.8549019607843137"@
    } else if a == 219 {
        "0.8588235294117647"@
    } else if a == 220 {
        "0.8627450980392157"@
    } else if a == 221 {
        "0.8666666666666667"@
    } else if a == 222 {
        "0.8705882352941177"@
    } else if a == 223 {
        "0.8745098039215686"@
    } else if a == 224 {
        "0.8784313725490196"@
    } else if a == 225 {
        "0.8823529411764706"@
    } else if a == 226 {
        "0.8862745098039215"@
    } else if a == 227 {
        "0.8901960784313725"@
    } else if a == 228 {
        "0.8941176470588236"@
    } else if a == 229 {
        "0.8980392156862745"@
    } else if a == 230 {
        "0.9019607843137255"@
    } else if a == 231 {
        "0.9058823529411765"@
    } else if a == 232 {
        "0.9098039215686274"@
    } else if a == 233 {
        "0.9137254901960784"@
    } else if a == 234 {
        "0.9176470588235294"@
    } else if a == 235 {
        "0.9215686274509803"@
    } else if a == 236 {
        "0.9254901960784314"@
    } else if a == 237 {
        "0.9294117647058824"@
    } else if a == 238 {
        "0.9333333333333333"@
    } else if a == 239 {
        "0.9372549019607843"@
    } else if a == 240 {
        "0.9411764705882353"@
    } else if a == 241 {
        "0.9450980392156862"@
    } else if a == 242 {
        "0.9490196078431372"@
    } else if a == 243 {
        "0.9529411764705882"@
    } else if a == 244 {
        "0.9568627450980393"@
    } else if a == 245 {
        "0.9607843137254902"@
    } else if a == 246 {
        "0.9647058823529412"@
    } else if a == 247 {
        "0.9686274509803922"@
    } else if a == 248 {
        "0.9725490196078431"@
    } else if a == 249 {
        "0.9764705882352941"@
    } else if a == 250 {
        "0.9803921568627451"@
    } else if a == 251 {
        "0.984313725490196"@
    } else if a == 252 {
        "0.9882352941176471"@
    } else if a == 253 {
        "0.9921568627450981"@
    } else if a == 254 {
        "0.996078431372549"@
    } else {
        "1"@
    }
}

/// `format!("{}", a as f64 / 255.0)`, from the table above.
pub fn alpha_str(a: u8) -> (r: &'static str)
    ensures
        r@ == alpha_text(a),
{
    match a {
        0 => "0",
        1 => "0.00392156862745098",
        2 => "0.00784313725490196",
        3 => "0.011764705882352941",
        4 => "0.01568627450980392",
        5 => "0.0196078431372549",
        6 => "0.023529411764705882",
        7 => "0.027450980392156862",
        8 => "0.03137254901960784",
        9 => "0.03529411764705882",
        10 => "0.0392156862745098",
        11 => "0.043137254901960784",
        12 => "0.047058823529411764",
        13 => "0.050980392156862744",
        14 => "0.054901960784313725",
        15 => "0.058823529411764705",
        16 => "0.06274509803921569",
        17 => "0.06666666666666667",
        18 => "0.07058823529411765",
        19 => "0.07450980392156863",
        20 => "0.0784313725490196",
        21 => "0.08235294117647059",
        22 => "0.08627450980392157",
        23 => "0.09019607843137255",
        24 => "0.09411764705882353",
        25 => "0.09803921568627451",
        26 => "0.10196078431372549",
        27 => "0.10588235294117647",
        28 => "0.10980392156862745",
        29 => "0.11372549019607843",
        30 => "0.11764705882352941",
        31 => "0.12156862745098039",
        32 => "0.12549019607843137",
        33 => "0.12941176470588237",
        34 => "0.13333333333333333",
        35 => "0.13725490196078433",
        36 => "0.1411764705882353",
        37 => "0.1450980392156863",
        38 => "0.14901960784313725",
        39 => "0.15294117647058825",
        40 => "0.1568627450980392",
        41 => "0.1607843137254902",
        42 => "0.16470588235294117",
        43 => "0.16862745098039217",
        44 => "0.17254901960784313",
        45 => "0.17647058823529413",
        46 => "0.1803921568627451",
        47 => "0.1843137254901961",
        48 => "0.18823529411764706",
        49 => "0.19215686274509805",
        50 => "0.19607843137254902",
        51 => "0.2",
        52 => "0.20392156862745098",
        53 => "0.20784313725490197",
        54 => "0.21176470588235294",
        55 => "0.21568627450980393",
        56 => "0.2196078431372549",
        57 => "0.2235294117647059",
        58 => "0.22745098039215686",
        59 => "0.23137254901960785",
        60 => "0.23529411764705882",
        61 => "0.23921568627450981",
        62 => "0.24313725490196078",
        63 => "0.24705882352941178",
        64 => "0.25098039215686274",
        65 => "0.2549019607843137",
        66 => "0.25882352941176473",
        67 => "0.2627450980392157",
        68 => "0.26666666666666666",
        69 => "0.27058823529411763",
        70 => "0.27450980392156865",
        71 => "0.2784313725490196",
        72 => "0.2823529411764706",
        73 => "0.28627450980392155",
        74 => "0.2901960784313726",
        75 => "0.29411764705882354",
        76 => "0.2980392156862745",
        77 => "0.30196078431372547",
        78 => "0.3058823529411765",
        79 => "0.30980392156862746",
        80 => "0.3137254901960784",
        81 => "0.3176470588235294",
        82 => "0.3215686274509804",
        83 => "0.3254901960784314",
        84 => "0.32941176470588235",
        85 => "0.3333333333333333",
        86 => "0.33725490196078434",
        87 => "0.3411764705882353",
        88 => "0.34509803921568627",
        89 => "0.34901960784313724",
        90 => "0.35294117647058826",
        91 => "0.3568627450980392",
        92 => "0.3607843137254902",
        93 => "0.36470588235294116",
        94 => "0.3686274509803922",
        95 => "0.37254901960784315",
        96 => "0.3764705882352941",
        97 => "0.3803921568627451",
        98 => "0.3843137254901961",
        99 => "0.38823529411764707",
        100 => "0.39215686274509803",
        101 => "0.396078431372549",
        102 => "0.4",
        103 => "0.403921568627451",
        104 => "0.40784313725490196",
        105 => "0.4117647058823529",
        106 => "0.41568627450980394",
        107 => "0.4196078431372549",
        108 => "0.4235294117647059",
        109 => "0.42745098039215684",
        110 => "0.43137254901960786",
        111 => "0.43529411764705883",
        112 => "0.4392156862745098",
        113 => "0.44313725490196076",
        114 => "0.4470588235294118",
        115 => "0.45098039215686275",
        116 => "0.4549019607843137",
        117 => "0.4588235294117647",
        118 => "0.4627450980392157",
        119 => "0.4666666666666667",
        120 => "0.47058823529411764",
        121 => "0.4745098039215686",
        122 => "0.47843137254901963",
        123 => "0.4823529411764706",
        124 => "0.48627450980392156",
        125 => "0.49019607843137253",
        126 => "0.49411764705882355",
        127 => "0.4980392156862745",
        128 => "0.5019607843137255",
        129 => "0.5058823529411764",
        130 => "0.5098039215686274",
        131 => "0.5137254901960784",
        132 => "0.5176470588235295",
        133 => "0.5215686274509804",
        134 => "0.5254901960784314",
        135 => "0.5294117647058824",
        136 => "0.5333333333333333",
        137 => "0.5372549019607843",
        138 => "0.5411764705882353",
        139 => "0.5450980392156862",
        140 => "0.5490196078431373",
        141 => "0.5529411764705883",
        142 => "0.5568627450980392",
        143 => "0.5607843137254902",
        144 => "0.5647058823529412",
        145 => "0.5686274509803921",
        146 => "0.5725490196078431",
        147 => "0.5764705882352941",
        148 => "0.5803921568627451",
        149 => "0.5843137254901961",
        150 => "0.5882352941176471",
        151 => "0.592156862745098",
        152 => "0.596078431372549",
        153 => "0.6",
        154 => "0.6039215686274509",
        155 => "0.6078431372549019",
        156 => "0.611764705882353",
        157 => "0.615686274509804",
        158 => "0.6196078431372549",
        159 => "0.6235294117647059",
        160 => "0.6274509803921569",
        161 => "0.6313725490196078",
        162 => "0.6352941176470588",
        163 => "0.6392156862745098",
        164 => "0.6431372549019608",
        165 => "0.6470588235294118",
        166 => "0.6509803921568628",
        167 => "0.6549019607843137",
        168 => "0.6588235294117647",
        169 => "0.6627450980392157",
        170 => "0.6666666666666666",
        171 => "0.6705882352941176",
        172 => "0.6745098039215687",
        173 => "0.6784313725490196",
        174 => "0.6823529411764706",
        175 => "0.6862745098039216",
        176 => "0.6901960784313725",
        177 => "0.6941176470588235",
        178 => "0.6980392156862745",
        179 => "0.7019607843137254",
        180 => "0.7058823529411765",
        181 => "0.7098039215686275",
        182 => "0.7137254901960784",
        183 => "0.7176470588235294",
        184 => "0.7215686274509804",
        185 => "0.7254901960784313",
        186 => "0.7294117647058823",
        187 => "0.7333333333333333",
        188 => "0.7372549019607844",
        189 => "0.7411764705882353",
        190 => "0.7450980392156863",
        191 => "0.7490196078431373",
        192 => "0.7529411764705882",
        193 => "0.7568627450980392",
        194 => "0.7607843137254902",
        195 => "0.7647058823529411",
        196 => "0.7686274509803922",
        197 => "0.7725490196078432",
        198 => "0.7764705882352941",
        199 => "0.7803921568627451",
        200 => "0.7843137254901961",
        201 => "0.788235294117647",
        202 => "0.792156862745098",
        203 => "0.796078431372549",
        204 => "0.8",
        205 => "0.803921568627451",
        206 => "0.807843137254902",
        207 => "0.8117647058823529",
        208 => "0.8156862745098039",
        209 => "0.8196078431372549",
        210 => "0.8235294117647058",
        211 => "0.8274509803921568",
        212 => "0.8313725490196079",
        213 => "0.8352941176470589",
        214 => "0.8392156862745098",
        215 => "0.8431372549019608",
        216 => "0.8470588235294118",
        217 => "0.8509803921568627",
        218 => "0.8549019607843137",
        219 => "0.8588235294117647",
        220 => "0.8627450980392157",
        221 => "0.8666666666666667",
        222 => "0.8705882352941177",
        223 => "0.8745098039215686",
        224 => "0.8784313725490196",
        225 => "0.8823529411764706",
        226 => "0.8862745098039215",
        227 => "0.8901960784313725",
        228 => "0.8941176470588236",
        229 => "0.8980392156862745",
        230 => "0.9019607843137255",
        231 => "0.9058823529411765",
        232 => "0.9098039215686274",
        233 => "0.9137254901960784",
        234 => "0.9176470588235294",
        235 => "0.9215686274509803",
        236 => "0.9254901960784314",
        237 => "0.9294117647058824",
        238 => "0.9333333333333333",
        239 => "0.9372549019607843",
        240 => "0.9411764705882353",
        241 => "0.9450980392156862",
        242 => "0.9490196078431372",
        243 => "0.9529411764705882",
        244 => "0.9568627450980393",
        245 => "0.9607843137254902",
        246 => "0.9647058823529412",
        247 => "0.9686274509803922",
        248 => "0.9725490196078431",
        249 => "0.9764705882352941",
        250 => "0.9803921568627451",
        251 => "0.984313725490196",
        252 => "0.9882352941176471",
        253 => "0.9921568627450981",
        254 => "0.996078431372549",
        _ => "1",
    }
}

} // verus!
