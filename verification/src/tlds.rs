//! The top-level domains that a URL may end with.
use vstd::prelude::*;
use crate::text::chars_of;

verus! {

broadcast use vstd::string::group_string_axioms;

/// The top-level domains of the DNS root zone, generic and country-code ones,
/// a few since retired among them, each between two `|`, in lower case;
/// internationalized ones in their Unicode form and in their punycode form.
pub const TLD_LIST: &'static str = "|aaa|aarp|abarth|abb|abbott|abbvie|abc|able|abogado|abudhabi|\
    ac|academy|accenture|accountant|accountants|aco|active|actor|ad|adac|ads|adult|ae|aeg|aero|\
    aetna|af|afamilycompany|afl|africa|ag|agakhan|agency|ai|aig|aigo|airbus|airforce|airtel|akdn|\
    al|alfaromeo|alibaba|alipay|allfinanz|allstate|ally|alsace|alstom|am|amazon|americanexpress|\
    americanfamily|amex|amfam|amica|amsterdam|analytics|android|anquan|anz|ao|aol|apartments|app|\
    apple|aq|aquarelle|ar|arab|aramco|archi|army|arpa|art|arte|as|asda|asia|associates|at|athleta|\
    attorney|au|auction|audi|audible|audio|auspost|author|auto|autos|avianca|aw|aws|ax|axa|az|\
    azure|ba|baby|baidu|banamex|bananarepublic|band|bank|bar|barcelona|barclaycard|barclays|\
    barefoot|bargains|baseball|basketball|bauhaus|bayern|bb|bbc|bbt|bbva|bcg|bcn|bd|be|beats|\
    beauty|beer|bentley|berlin|best|bestbuy|bet|bf|bg|bh|bharti|bi|bible|bid|bike|bing|bingo|bio|\
    biz|bj|black|blackfriday|blanco|blockbuster|blog|bloomberg|blue|bm|bms|bmw|bn|bnl|bnpparibas|\
    bo|boats|boehringer|bofa|bom|bond|boo|book|booking|boots|bosch|bostik|boston|bot|boutique|box|\
    br|bradesco|bridgestone|broadway|broker|brother|brussels|bs|bt|budapest|bugatti|build|\
    builders|business|buy|buzz|bv|bw|by|bz|bzh|ca|cab|cafe|cal|call|calvinklein|cam|camera|camp|\
    cancerresearch|canon|capetown|capital|capitalone|car|caravan|cards|care|career|careers|cars|\
    cartier|casa|case|caseih|cash|casino|cat|catering|catholic|cba|cbn|cbre|cbs|cc|cd|ceb|center|\
    ceo|cern|cf|cfa|cfd|cg|ch|chanel|channel|charity|chase|chat|cheap|chintai|chloe|christmas|\
    chrome|chrysler|church|ci|cipriani|circle|cisco|citadel|citi|citic|city|cityeats|ck|cl|claims|\
    cleaning|click|clinic|clinique|clothing|cloud|club|clubmed|cm|cn|co|coach|codes|coffee|\
    college|cologne|com|comcast|commbank|community|company|compare|computer|comsec|condos|\
    construction|consulting|contact|contractors|cooking|cookingchannel|cool|coop|corsica|country|\
    coupon|coupons|courses|cpa|cr|credit|creditcard|creditunion|cricket|crown|crs|cruise|cruises|\
    csc|cu|cuisinella|cv|cw|cx|cy|cymru|cyou|cz|dabur|dad|dance|data|date|dating|datsun|day|dclk|\
    dds|de|deal|dealer|deals|degree|delivery|dell|deloitte|delta|democrat|dental|dentist|desi|\
    design|dev|dhl|diamonds|diet|digital|direct|directory|discount|discover|dish|diy|dj|dk|dm|dnp|\
    do|docs|doctor|dodge|dog|doha|domains|doosan|dot|download|drive|dtv|dubai|duck|dunlop|duns|\
    dupont|durban|dvag|dvr|dz|earth|eat|ec|eco|edeka|edu|education|ee|eg|email|emerck|energy|\
    engineer|engineering|enterprises|epost|epson|equipment|er|ericsson|erni|es|esq|estate|\
    esurance|et|etisalat|eu|eurovision|eus|events|everbank|exchange|expert|exposed|express|\
    extraspace|fage|fail|fairwinds|faith|family|fan|fans|farm|farmers|fashion|fast|fedex|feedback|\
    ferrari|ferrero|fi|fiat|fidelity|fido|film|final|finance|financial|fire|firestone|firmdale|\
    fish|fishing|fit|fitness|fj|fk|flickr|flights|flir|florist|flowers|flsmidth|fly|fm|fo|foo|\
    food|foodnetwork|football|ford|forex|forsale|forum|foundation|fox|fr|free|fresenius|frl|\
    frogans|frontdoor|frontier|ftr|fujitsu|fujixerox|fun|fund|furniture|futbol|fyi|ga|gal|gallery|\
    gallo|gallup|game|games|gap|garden|gay|gb|gbiz|gd|gdn|ge|gea|gent|genting|george|gf|gg|ggee|\
    gh|gi|gift|gifts|gives|giving|gl|glade|glass|gle|global|globo|gm|gmail|gmbh|gmo|gmx|gn|\
    godaddy|gold|goldpoint|golf|goo|goodhands|goodyear|goog|google|gop|got|gov|gp|gq|gr|grainger|\
    graphics|gratis|green|gripe|grocery|group|gs|gt|gu|guardian|gucci|guge|guide|guitars|guru|gw|\
    gy|hair|hamburg|hangout|haus|hbo|hdfc|hdfcbank|health|healthcare|help|helsinki|here|hermes|\
    hgtv|hiphop|hisamitsu|hitachi|hiv|hk|hkt|hm|hn|hockey|holdings|holiday|homedepot|homegoods|\
    homes|homesense|honda|honeywell|horse|hospital|host|hosting|hot|hoteles|hotels|hotmail|house|\
    how|hr|hsbc|ht|hu|hughes|hyatt|hyundai|ibm|icbc|ice|icu|id|ie|ieee|ifm|ikano|il|im|imamat|\
    imdb|immo|immobilien|in|inc|industries|infiniti|info|ing|ink|institute|insurance|insure|int|\
    intel|international|intuit|investments|io|ipiranga|iq|ir|irish|is|iselect|ismaili|ist|\
    istanbul|it|itau|itv|iveco|iwc|jaguar|java|jcb|jcp|je|jeep|jetzt|jewelry|jio|jlc|jll|jm|jmp|\
    jnj|jo|jobs|joburg|jot|joy|jp|jpmorgan|jprs|juegos|juniper|kaufen|kddi|ke|kerryhotels|\
    kerrylogistics|kerryproperties|kfh|kg|kh|ki|kia|kids|kim|kinder|kindle|kitchen|kiwi|km|kn|\
    koeln|komatsu|kosher|kp|kpmg|kpn|kr|krd|kred|kuokgroup|kw|ky|kyoto|kz|la|lacaixa|ladbrokes|\
    lamborghini|lamer|lancaster|lancia|lancome|land|landrover|lanxess|lasalle|lat|latino|latrobe|\
    law|lawyer|lb|lc|lds|lease|leclerc|lefrak|legal|lego|lexus|lgbt|li|liaison|lidl|life|\
    lifeinsurance|lifestyle|lighting|like|lilly|limited|limo|lincoln|linde|link|lipsy|live|living|\
    lixil|lk|llc|llp|loan|loans|locker|locus|loft|lol|london|lotte|lotto|love|lpl|lplfinancial|lr|\
    ls|lt|ltd|ltda|lu|lundbeck|lupin|luxe|luxury|lv|ly|ma|macys|madrid|maif|maison|makeup|man|\
    management|mango|map|market|marketing|markets|marriott|marshalls|maserati|mattel|mba|mc|\
    mckinsey|md|me|med|media|meet|melbourne|meme|memorial|men|menu|meo|merckmsd|metlife|mg|mh|\
    miami|microsoft|mil|mini|mint|mit|mitsubishi|mk|ml|mlb|mls|mm|mma|mn|mo|mobi|mobile|mobily|\
    moda|moe|moi|mom|monash|money|monster|montblanc|mopar|mormon|mortgage|moscow|moto|motorcycles|\
    mov|movie|movistar|mp|mq|mr|ms|msd|mt|mtn|mtr|mu|museum|music|mutual|mutuelle|mv|mw|mx|my|mz|\
    na|nab|nadex|nagoya|name|nationwide|natura|navy|nba|nc|ne|nec|net|netbank|netflix|network|\
    neustar|new|newholland|news|next|nextdirect|nexus|nf|nfl|ng|ngo|nhk|ni|nico|nike|nikon|ninja|\
    nissan|nissay|nl|no|nokia|northwesternmutual|norton|now|nowruz|nowtv|np|nr|nra|nrw|ntt|nu|nyc|\
    nz|obi|observer|off|office|okinawa|olayan|olayangroup|oldnavy|ollo|om|omega|one|ong|onl|\
    online|onyourside|ooo|open|oracle|orange|org|organic|origins|osaka|otsuka|ott|ovh|pa|page|\
    panasonic|panerai|paris|pars|partners|parts|party|passagens|pay|pccw|pe|pet|pf|pfizer|pg|ph|\
    pharmacy|phd|philips|phone|photo|photography|photos|physio|piaget|pics|pictet|pictures|pid|\
    pin|ping|pink|pioneer|pizza|pk|pl|place|play|playstation|plumbing|plus|pm|pn|pnc|pohl|poker|\
    politie|porn|post|pr|pramerica|praxi|press|prime|pro|prod|productions|prof|progressive|promo|\
    properties|property|protection|pru|prudential|ps|pt|pub|pw|pwc|py|qa|qpon|quebec|quest|qvc|\
    racing|radio|raid|re|read|realestate|realtor|realty|recipes|red|redstone|redumbrella|rehab|\
    reise|reisen|reit|reliance|ren|rent|rentals|repair|report|republican|rest|restaurant|review|\
    reviews|rexroth|rich|richardli|ricoh|rightathome|ril|rio|rip|rmit|ro|rocher|rocks|rodeo|\
    rogers|room|rs|rsvp|ru|rugby|ruhr|run|rw|rwe|ryukyu|sa|saarland|safe|safety|sakura|sale|salon|\
    samsclub|samsung|sandvik|sandvikcoromant|sanofi|sap|sapo|sarl|sas|save|saxo|sb|sbi|sbs|sc|sca|\
    scb|schaeffler|schmidt|scholarships|school|schule|schwarz|science|scjohnson|scor|scot|sd|se|\
    search|seat|secure|security|seek|select|sener|services|ses|seven|sew|sex|sexy|sfr|sg|sh|\
    shangrila|sharp|shaw|shell|shia|shiksha|shoes|shop|shopping|shouji|show|showtime|shriram|si|\
    silk|sina|singles|site|sj|sk|ski|skin|sky|skype|sl|sling|sm|smart|smile|sn|sncf|so|soccer|\
    social|softbank|software|sohu|solar|solutions|song|sony|soy|spa|space|spiegel|sport|spot|\
    spreadbetting|sr|srl|srt|ss|st|stada|staples|star|starhub|statebank|statefarm|statoil|stc|\
    stcgroup|stockholm|storage|store|stream|studio|study|style|su|sucks|supplies|supply|support|\
    surf|surgery|suzuki|sv|swatch|swiftcover|swiss|sx|sy|sydney|symantec|systems|sz|tab|taipei|\
    talk|taobao|target|tatamotors|tatar|tattoo|tax|taxi|tc|tci|td|tdk|team|tech|technology|tel|\
    telecity|telefonica|temasek|tennis|teva|tf|tg|th|thd|theater|theatre|tiaa|tickets|tienda|\
    tiffany|tips|tires|tirol|tj|tjmaxx|tjx|tk|tkmaxx|tl|tm|tmall|tn|to|today|tokyo|tools|top|\
    toray|toshiba|total|tours|town|toyota|toys|tr|trade|trading|training|travel|travelchannel|\
    travelers|travelersinsurance|trust|trv|tt|tube|tui|tunes|tushu|tv|tvs|tw|tz|ua|ubank|ubs|\
    uconnect|ug|uk|unicom|university|uno|uol|ups|us|uy|uz|va|vacations|vana|vanguard|vc|ve|vegas|\
    ventures|verisign|versicherung|vet|vg|vi|viajes|video|vig|viking|villas|vin|vip|virgin|visa|\
    vision|vista|vistaprint|viva|vivo|vlaanderen|vn|vodka|volkswagen|volvo|vote|voting|voto|\
    voyage|vu|vuelos|wales|walmart|walter|wang|wanggou|warman|watch|watches|weather|\
    weatherchannel|webcam|weber|website|wed|wedding|weibo|weir|wf|whoswho|wien|wiki|williamhill|\
    win|windows|wine|winners|wme|wolterskluwer|woodside|work|works|world|wow|ws|wtc|wtf|xbox|\
    xerox|xfinity|xihuan|xin|xperia|xxx|xyz|yachts|yahoo|yamaxun|yandex|ye|yodobashi|yoga|\
    yokohama|you|youtube|yt|yun|za|zappos|zara|zero|zip|zippo|zm|zone|zuerich|zw|\
    \u{915}\u{949}\u{92E}|\u{30BB}\u{30FC}\u{30EB}|\u{4F5B}\u{5C71}|\u{6148}\u{5584}|\
    \u{96C6}\u{56E2}|\u{5728}\u{7EBF}|\u{5927}\u{4F17}\u{6C7D}\u{8F66}|\u{70B9}\u{770B}|\
    \u{E04}\u{E2D}\u{E21}|\u{516B}\u{5366}|\u{645}\u{648}\u{642}\u{639}|\u{516C}\u{76CA}|\
    \u{516C}\u{53F8}|\u{9999}\u{683C}\u{91CC}\u{62C9}|\u{7F51}\u{7AD9}|\u{79FB}\u{52A8}|\
    \u{6211}\u{7231}\u{4F60}|\u{43C}\u{43E}\u{441}\u{43A}\u{432}\u{430}|\
    \u{43A}\u{430}\u{442}\u{43E}\u{43B}\u{438}\u{43A}|\u{43E}\u{43D}\u{43B}\u{430}\u{439}\u{43D}|\
    \u{441}\u{430}\u{439}\u{442}|\u{8054}\u{901A}|\u{5E7}\u{5D5}\u{5DD}|\u{65F6}\u{5C1A}|\
    \u{5FAE}\u{535A}|\u{6DE1}\u{9A6C}\u{9521}|\u{30D5}\u{30A1}\u{30C3}\u{30B7}\u{30E7}\u{30F3}|\
    \u{43E}\u{440}\u{433}|\u{928}\u{947}\u{91F}|\u{30B9}\u{30C8}\u{30A2}|\
    \u{30A2}\u{30DE}\u{30BE}\u{30F3}|\u{C0BC}\u{C131}|\u{5546}\u{6807}|\u{5546}\u{5E97}|\
    \u{5546}\u{57CE}|\u{434}\u{435}\u{442}\u{438}|\u{30DD}\u{30A4}\u{30F3}\u{30C8}|\
    \u{65B0}\u{95FB}|\u{5DE5}\u{884C}|\u{5BB6}\u{96FB}|\u{643}\u{648}\u{645}|\
    \u{4E2D}\u{6587}\u{7F51}|\u{4E2D}\u{4FE1}|\u{5A31}\u{4E50}|\u{8C37}\u{6B4C}|\
    \u{96FB}\u{8A0A}\u{76C8}\u{79D1}|\u{8D2D}\u{7269}|\u{30AF}\u{30E9}\u{30A6}\u{30C9}|\
    \u{901A}\u{8CA9}|\u{7F51}\u{5E97}|\u{938}\u{902}\u{917}\u{920}\u{928}|\u{9910}\u{5385}|\
    \u{7F51}\u{7EDC}|\u{43A}\u{43E}\u{43C}|\u{4E9A}\u{9A6C}\u{900A}|\u{8BFA}\u{57FA}\u{4E9A}|\
    \u{98DF}\u{54C1}|\u{98DE}\u{5229}\u{6D66}|\u{624B}\u{8868}|\u{624B}\u{673A}|\
    \u{627}\u{631}\u{627}\u{645}\u{643}\u{648}|\u{627}\u{644}\u{639}\u{644}\u{64A}\u{627}\u{646}|\
    \u{627}\u{62A}\u{635}\u{627}\u{644}\u{627}\u{62A}|\u{628}\u{627}\u{632}\u{627}\u{631}|\
    \u{627}\u{628}\u{648}\u{638}\u{628}\u{64A}|\u{643}\u{627}\u{62B}\u{648}\u{644}\u{64A}\u{643}|\
    \u{647}\u{645}\u{631}\u{627}\u{647}|\u{B2F7}\u{CEF4}|\u{653F}\u{5E9C}|\
    \u{634}\u{628}\u{643}\u{629}|\u{628}\u{64A}\u{62A}\u{643}|\u{639}\u{631}\u{628}|\
    \u{673A}\u{6784}|\u{7EC4}\u{7EC7}\u{673A}\u{6784}|\u{5065}\u{5EB7}|\u{62DB}\u{8058}|\
    \u{440}\u{443}\u{441}|\u{73E0}\u{5B9D}|\u{5927}\u{62FF}|\u{307F}\u{3093}\u{306A}|\
    \u{30B0}\u{30FC}\u{30B0}\u{30EB}|\u{4E16}\u{754C}|\u{66F8}\u{7C4D}|\u{7F51}\u{5740}|\
    \u{B2F7}\u{B137}|\u{30B3}\u{30E0}|\u{5929}\u{4E3B}\u{6559}|\u{6E38}\u{620F}|\
    verm\u{F6}gensberater|verm\u{F6}gensberatung|\u{4F01}\u{4E1A}|\u{4FE1}\u{606F}|\
    \u{5609}\u{91CC}\u{5927}\u{9152}\u{5E97}|\u{5609}\u{91CC}|\u{5E7F}\u{4E1C}|\u{653F}\u{52A1}|\
    \u{CAD}\u{CBE}\u{CB0}\u{CA4}|\u{D55C}\u{AD6D}|\u{B2D}\u{B3E}\u{B30}\u{B24}|\
    \u{9AD}\u{9BE}\u{9F0}\u{9A4}|\u{9AD}\u{9BE}\u{9B0}\u{9A4}|\u{5D9}\u{5E9}\u{5E8}\u{5D0}\u{5DC}|\
    \u{9AC}\u{9BE}\u{982}\u{9B2}\u{9BE}|\u{49B}\u{430}\u{437}|\u{441}\u{440}\u{431}|\
    \u{431}\u{433}|\u{431}\u{435}\u{43B}|\
    \u{B9A}\u{BBF}\u{B99}\u{BCD}\u{B95}\u{BAA}\u{BCD}\u{BAA}\u{BC2}\u{BB0}\u{BCD}|\
    \u{43C}\u{43A}\u{434}|\u{435}\u{44E}|\u{4E2D}\u{56FD}|\u{4E2D}\u{570B}|\
    \u{C2D}\u{C3E}\u{C30}\u{C24}\u{C4D}|\u{DBD}\u{D82}\u{D9A}\u{DCF}|\u{AAD}\u{ABE}\u{AB0}\u{AA4}|\
    \u{92D}\u{93E}\u{930}\u{924}\u{92E}\u{94D}|\u{92D}\u{93E}\u{930}\u{924}|\
    \u{92D}\u{93E}\u{930}\u{94B}\u{924}|\u{443}\u{43A}\u{440}|\u{9999}\u{6E2F}|\u{53F0}\u{6E7E}|\
    \u{53F0}\u{7063}|\u{43C}\u{43E}\u{43D}|\u{627}\u{644}\u{62C}\u{632}\u{627}\u{626}\u{631}|\
    \u{639}\u{645}\u{627}\u{646}|\u{627}\u{6CC}\u{631}\u{627}\u{646}|\
    \u{627}\u{645}\u{627}\u{631}\u{627}\u{62A}|\
    \u{645}\u{648}\u{631}\u{64A}\u{62A}\u{627}\u{646}\u{64A}\u{627}|\
    \u{67E}\u{627}\u{6A9}\u{633}\u{62A}\u{627}\u{646}|\u{627}\u{644}\u{627}\u{631}\u{62F}\u{646}|\
    \u{628}\u{627}\u{631}\u{62A}|\u{628}\u{6BE}\u{627}\u{631}\u{62A}|\
    \u{627}\u{644}\u{645}\u{63A}\u{631}\u{628}|\u{627}\u{644}\u{628}\u{62D}\u{631}\u{64A}\u{646}|\
    \u{627}\u{644}\u{633}\u{639}\u{648}\u{62F}\u{64A}\u{629}|\u{680}\u{627}\u{631}\u{62A}|\
    \u{633}\u{648}\u{62F}\u{627}\u{646}|\u{639}\u{631}\u{627}\u{642}|\
    \u{645}\u{644}\u{64A}\u{633}\u{64A}\u{627}|\u{6FB3}\u{9580}|\u{10D2}\u{10D4}|\
    \u{E44}\u{E17}\u{E22}|\u{633}\u{648}\u{631}\u{64A}\u{629}|\u{440}\u{444}|\
    \u{62A}\u{648}\u{646}\u{633}|\u{EA5}\u{EB2}\u{EA7}|\u{3B5}\u{3C5}|\u{3B5}\u{3BB}|\
    \u{D2D}\u{D3E}\u{D30}\u{D24}\u{D02}|\u{A2D}\u{A3E}\u{A30}\u{A24}|\u{645}\u{635}\u{631}|\
    \u{642}\u{637}\u{631}|\u{B87}\u{BB2}\u{B99}\u{BCD}\u{B95}\u{BC8}|\
    \u{B87}\u{BA8}\u{BCD}\u{BA4}\u{BBF}\u{BAF}\u{BBE}|\u{570}\u{561}\u{575}|\
    \u{65B0}\u{52A0}\u{5761}|\u{641}\u{644}\u{633}\u{637}\u{64A}\u{646}|xn--11b4c3d|xn--1ck2e1b|\
    xn--1qqw23a|xn--30rr7y|xn--3bst00m|xn--3ds443g|xn--3oq18vl8pn36a|xn--3pxu8k|xn--42c2d9a|\
    xn--45q11c|xn--4gbrim|xn--55qw42g|xn--55qx5d|xn--5su34j936bgsg|xn--5tzm5g|xn--6frz82g|\
    xn--6qq986b3xl|xn--80adxhks|xn--80aqecdr1a|xn--80asehdb|xn--80aswg|xn--8y0a063a|xn--9dbq2a|\
    xn--9et52u|xn--9krt00a|xn--b4w605ferd|xn--bck1b9a5dre4c|xn--c1avg|xn--c2br7g|xn--cck2b3b|\
    xn--cckwcxetd|xn--cg4bki|xn--czr694b|xn--czrs0t|xn--czru2d|xn--d1acj3b|xn--eckvdtc9d|\
    xn--efvy88h|xn--estv75g|xn--fct429k|xn--fhbei|xn--fiq228c5hs|xn--fiq64b|xn--fjq720a|\
    xn--flw351e|xn--fzys8d69uvgm|xn--g2xx48c|xn--gckr3f0f|xn--gk3at1e|xn--hxt814e|xn--i1b6b1a6a2e|\
    xn--imr513n|xn--io0a7i|xn--j1aef|xn--jlq480n2rg|xn--jlq61u9w7b|xn--jvr189m|xn--kcrx77d1x4a|\
    xn--kpu716f|xn--kput3i|xn--mgba3a3ejt|xn--mgba7c0bbn0a|xn--mgbaakc7dvf|xn--mgbab2bd|\
    xn--mgbca7dzdo|xn--mgbi4ecexp|xn--mgbt3dhd|xn--mk1bu44c|xn--mxtq1m|xn--ngbc5azd|xn--ngbe9e0a|\
    xn--ngbrx|xn--nqv7f|xn--nqv7fs00ema|xn--nyqy26a|xn--otu796d|xn--p1acf|xn--pbt977c|xn--pssy2u|\
    xn--q9jyb4c|xn--qcka1pmc|xn--rhqv96g|xn--rovu88b|xn--ses554g|xn--t60b56a|xn--tckwe|\
    xn--tiq49xqyj|xn--unup4y|xn--vermgensberater-ctb|xn--vermgensberatung-pwb|xn--vhquv|\
    xn--vuq861b|xn--w4r85el8fhu5dnra|xn--w4rs40l|xn--xhq521b|xn--zfr164b|xn--2scrj9c|xn--3e0b707e|\
    xn--3hcrj9c|xn--45br5cyl|xn--45brj9c|xn--4dbrk0ce|xn--54b7fta0cc|xn--80ao21a|xn--90a3ac|\
    xn--90ae|xn--90ais|xn--clchc0ea0b2g2a9gcd|xn--d1alf|xn--e1a4c|xn--fiqs8s|xn--fiqz9s|\
    xn--fpcrj9c3d|xn--fzc2c9e2c|xn--gecrj9c|xn--h2breg3eve|xn--h2brj9c|xn--h2brj9c8c|xn--j1amh|\
    xn--j6w193g|xn--kprw13d|xn--kpry57d|xn--l1acc|xn--lgbbat1ad8j|xn--mgb9awbf|xn--mgba3a4f16a|\
    xn--mgbaam7a8h|xn--mgbah1a3hjkrd|xn--mgbai9azgqp6j|xn--mgbayh7gpa|xn--mgbbh1a|xn--mgbbh1a71e|\
    xn--mgbc0a9azcg|xn--mgbcpq6gpa1a|xn--mgberp4a5d4ar|xn--mgbgu82a|xn--mgbpl2fh|xn--mgbtx2b|\
    xn--mgbx4cd0ab|xn--mix891f|xn--node|xn--o3cw4h|xn--ogbpf8fl|xn--p1ai|xn--pgbs0dh|xn--q7ce6a|\
    xn--qxa6a|xn--qxam|xn--rvc1e0am3e|xn--s9brj9c|xn--wgbh1c|xn--wgbl6a|xn--xkc2al3hye2a|\
    xn--xkc2dl3a5ee0h|xn--y9a3aq|xn--yfro4i67o|xn--ygbi2ammx|";

/// `t` stands between two `|` at position `i` of the list.
pub open spec fn listed_at(l: Seq<char>, t: Seq<char>, i: int) -> bool {
    &&& 0 <= i
    &&& i + t.len() + 2 <= l.len()
    &&& l[i] == '|'
    &&& l.subrange(i + 1, i + 1 + t.len()) == t
    &&& l[i + 1 + t.len()] == '|'
}

/// `t` is a top-level domain, written exactly as in the list.
pub open spec fn is_tld(t: Seq<char>) -> bool {
    &&& t.len() > 0
    &&& !t.contains('|')
    &&& exists|i: int| listed_at(TLD_LIST@, t, i)
}

/// The lower-case form of an ASCII letter; other characters are unchanged.
pub open spec fn ascii_lower(c: char) -> char {
    if 'A' <= c <= 'Z' {
        ((c as u32) + 32) as char
    } else {
        c
    }
}

/// `t` with its ASCII letters in lower case.
pub open spec fn lower(t: Seq<char>) -> Seq<char> {
    t.map_values(|c: char| ascii_lower(c))
}

/// `t` is a top-level domain, ignoring the case of ASCII letters.
pub open spec fn is_tld_ci(t: Seq<char>) -> bool {
    is_tld(lower(t))
}

pub fn to_ascii_lower(c: char) -> (r: char)
    ensures
        r == ascii_lower(c),
{
    if 'A' <= c && c <= 'Z' {
        let code: u32 = (c as u32) + 32;
        assert(code <= 0x7f);
        char_from_ascii(code)
    } else {
        c
    }
}

fn char_from_ascii(code: u32) -> (r: char)
    requires
        code <= 0x7f,
    ensures
        r == code as char,
{
    let b: u8 = code as u8;
    b as char
}

/// Whether `l` holds `t` at `off`.
fn holds_at(l: &Vec<char>, off: usize, t: &[char]) -> (r: bool)
    requires
        off + t@.len() <= l.len(),
    ensures
        r == (l@.subrange(off as int, off + t@.len()) == t@),
{
    let mut k: usize = 0;
    while k < t.len()
        invariant
            off + t@.len() <= l.len(),
            k <= t@.len(),
            forall|j: int| 0 <= j < k ==> l@[off + j] == t@[j],
        decreases t@.len() - k,
    {
        if l[off + k] != t[k] {
            assert(l@.subrange(off as int, off + t@.len())[k as int] != t@[k as int]);
            return false;
        }
        k = k + 1;
    }
    assert(l@.subrange(off as int, off + t@.len()) =~= t@);
    true
}

/// Whether `t`, written exactly as given, is a top-level domain.
pub fn tld_listed(t: &[char]) -> (r: bool)
    ensures
        r == is_tld(t@),
{
    if t.len() == 0 {
        return false;
    }
    let mut k: usize = 0;
    while k < t.len()
        invariant
            k <= t@.len(),
            forall|j: int| 0 <= j < k ==> t@[j] != '|',
        decreases t@.len() - k,
    {
        if t[k] == '|' {
            assert(t@.contains('|'));
            return false;
        }
        k = k + 1;
    }
    assert(!t@.contains('|'));
    let l = chars_of(TLD_LIST);
    let n = l.len();
    let m = t.len();
    if n < 2 || m > n - 2 {
        return false;
    }
    let mut i: usize = 0;
    while i <= n - m - 2
        invariant
            n == l@.len(),
            m == t@.len(),
            m + 2 <= n,
            m > 0,
            !t@.contains('|'),
            l@ == TLD_LIST@,
            forall|j: int| 0 <= j < i ==> !listed_at(l@, t@, j),
        decreases n - i,
    {
        if l[i] == '|' && l[i + 1 + m] == '|' && holds_at(&l, i + 1, t) {
            assert(listed_at(TLD_LIST@, t@, i as int));
            return true;
        }
        i = i + 1;
    }
    assert forall|j: int| !listed_at(TLD_LIST@, t@, j) by {
        if 0 <= j && j + m + 2 <= n {
            assert(j < i);
        }
    }
    false
}

/// Whether `tld` is a top-level domain, written in lower case.
pub fn is_valid_tld(tld: &str) -> (r: bool)
    ensures
        r == is_tld(tld@),
{
    let t = chars_of(tld);
    tld_listed(t.as_slice())
}

/// Whether `tld` is a top-level domain, ignoring the case of ASCII letters.
pub fn is_valid_tld_case_insensitive(tld: &[char]) -> (r: bool)
    ensures
        r == is_tld_ci(tld@),
{
    let mut low: Vec<char> = Vec::new();
    let mut k: usize = 0;
    while k < tld.len()
        invariant
            k <= tld@.len(),
            low@ == lower(tld@).take(k as int),
        decreases tld@.len() - k,
    {
        let c = to_ascii_lower(tld[k]);
        assert(lower(tld@).take(k + 1) =~= lower(tld@).take(k as int).push(c));
        low.push(c);
        k = k + 1;
    }
    assert(lower(tld@).take(k as int) =~= lower(tld@));
    tld_listed(low.as_slice())
}

} // verus!
