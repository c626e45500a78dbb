//! The BIP39 English word list that code phrases draw their words from.
use vstd::prelude::*;
use crate::text::{chars_of, is_digit, lemma_split_on_nonempty, split_chars, split_on};

verus! {

/// The 2048 words in alphabetical order, 64 to a line, front-coded: within a
/// line, each word after the first is written as the number of leading
/// letters it shares with the word before it, followed by its remaining
/// letters.
pub const WORD_LINES: [&'static str; 32] = [
    "abandon 2ility 2le 2out 3ve 2sent 3orb 3tract 3urd 2use 1ccess 3ident 3ount 3use 2hieve 2id 2oustic 2quire 2ross 2t 3ion 3or 3ress 3ual 1dapt 2d 3ict 3ress 2just 2mit 2ult 2vance 3ice 1erobic 1ffair 3ord 2raid 1gain 2e 3nt 2ree 1head 1im 2r 3port 2sle 1larm 2bum 2cohol 2ert 2ien 2l 3ey 3ow 2most 2one 2pha 2ready 2so 2ter 2ways 1mateur 3zing 2ong",
    "amount 2used 1nalyst 2chor 3ient 2ger 3le 3ry 2imal 2kle 2nounce 3ual 2other 2swer 2tenna 3ique 2xiety 2y 1part 2ology 2pear 3le 3rove 2ril 1rch 3tic 2ea 3na 2gue 2m 3ed 3or 3y 2ound 2range 3est 3ive 3ow 2t 3efact 3ist 3work 1sk 2pect 2sault 3et 3ist 3ume 2thma 1thlete 2om 2tack 3end 3itude 3ract 1uction 2dit 2gust 2nt 2thor 3o 3umn 1verage 2ocado",
    "avoid 1wake 3re 3y 2esome 2ful 2kward 1xis 0baby 2chelor 3on 2dge 2g 2lance 3cony 3l 2mboo 2nana 3ner 2r 3ely 3gain 3rel 2se 3ic 3ket 2ttle 1each 3n 3uty 2cause 3ome 2ef 2fore 2gin 2have 3ind 2lieve 3ow 3t 2nch 3efit 2st 2tray 3ter 3ween 2yond 1icycle 2d 2ke 2nd 2ology 2rd 3th 2tter 1lack 3de 3me 3nket 3st 2eak 3ss 2ind 2ood",
    "blossom 3use 2ue 3r 3sh 1oard 3t 2dy 2il 2mb 2ne 3us 2ok 3st 2rder 3ing 3row 2ss 2ttom 2unce 2x 2y 1racket 3in 3nd 3ss 3ve 2ead 3eze 2ick 3dge 3ef 3ght 3ng 3sk 2occoli 3ken 3nze 3om 3ther 3wn 2ush 1ubble 2ddy 3get 2ffalo 2ild 2lb 3k 3let 2ndle 3ker 2rden 3ger 3st 2s 3iness 3y 2tter 2yer 2zz 0cabbage 3in 3le",
    "cactus 2ge 2ke 2ll 3m 2mera 3p 2n 3al 3cel 3dy 3non 3oe 3vas 3yon 2pable 3ital 3tain 2r 3bon 3d 3go 3pet 3ry 3t 2se 3h 3ino 3tle 3ual 2t 3alog 3ch 3egory 3tle 2ught 3se 3tion 2ve 1eiling 2lery 2ment 2nsus 3tury 2real 3tain 1hair 3lk 3mpion 3nge 3os 3pter 3rge 3se 3t 2eap 3ck 3ese 3f 3rry 3st 2icken 3ef 3ld",
    "chimney 2oice 3ose 2ronic 2uckle 3nk 3rn 1igar 2nnamon 2rcle 2tizen 3y 2vil 1laim 3p 3rify 3w 3y 2ean 3rk 3ver 2ick 3ent 3ff 3mb 3nic 3p 2ock 3g 3se 3th 3ud 3wn 2ub 3mp 3ster 3tch 1oach 3st 2conut 2de 2ffee 2il 3n 2llect 3or 3umn 2mbine 3e 3fort 3ic 3mon 3pany 2ncert 3duct 3firm 3gress 3nect 3sider 3trol 3vince 2ok 3l 2pper",
    "copy 2ral 3e 3n 3rect 2st 2tton 2uch 3ntry 3ple 3rse 3sin 2ver 2yote 1rack 3dle 3ft 3m 3ne 3sh 3ter 3wl 3zy 2eam 3dit 3ek 3w 2icket 3me 3sp 3tic 2op 3ss 3uch 3wd 2ucial 3el 3ise 3mble 3nch 3sh 2y 3stal 1ube 2lture 2p 3board 2rious 3rent 3tain 3ve 2shion 3tom 2te 1ycle 0dad 2mage 3p 2nce 3ger 2ring 2sh 2ughter 2wn",
    "day 1eal 2bate 3ris 2cade 3ember 3ide 3line 3orate 3rease 2er 2fense 3ine 3y 2gree 2lay 3iver 2mand 3ise 2nial 3tist 3y 2part 3end 3osit 3th 3uty 2rive 2scribe 3ert 3ign 3k 3pair 3troy 2tail 3ect 2velop 3ice 3ote 1iagram 3l 3mond 3ry 2ce 2esel 3t 2ffer 2gital 3nity 2lemma 2nner 3osaur 2rect 3t 2sagree 3cover 3ease 3h 3miss 3order 3play 3tance 2vert 3ide",
    "divorce 2zzy 1octor 3ument 2g 2ll 3phin 2main 2nate 3key 3or 2or 2se 2uble 2ve 1raft 3gon 3ma 3stic 3w 2eam 3ss 2ift 3ll 3nk 3p 3ve 2op 2um 2y 1uck 2mb 2ne 2ring 2st 2tch 3y 1warf 1ynamic 0eager 3le 2rly 3n 3th 2sily 3t 3y 1cho 2ology 3nomy 1dge 2it 2ucate 1ffort 1gg 1ight 2ther 1lbow 2der 2ectric 3gant 3ment 3phant 3vator",
    "elite 2se 1mbark 3ody 3race 2erge 2otion 2ploy 3ower 3ty 1nable 3ct 2d 3less 3orse 2emy 3rgy 2force 2gage 3ine 2hance 2joy 2list 2ough 2rich 3oll 2sure 2ter 3ire 3ry 2velope 1pisode 1qual 3ip 1ra 3se 2ode 3sion 2ror 2upt 1scape 2say 3ence 2tate 1ternal 2hics 1vidence 3l 2oke 3lve 1xact 3mple 2cess 3hange 3ite 3lude 3use 2ecute 3rcise 2haust 3ibit 2ile 3st 3t",
    "exotic 2pand 3ect 3ire 3lain 3ose 3ress 2tend 3ra 1ye 3brow 0fabric 2ce 3ulty 2de 2int 3th 2ll 3se 2me 3ily 3ous 2n 3cy 3tasy 2rm 2shion 2t 3al 3her 3igue 2ult 2vorite 1eature 2bruary 2deral 2e 3d 3l 2male 2nce 2stival 2tch 2ver 2w 1iber 2ction 2eld 2gure 2le 3m 3ter 2nal 3d 3e 3ger 3ish 2re 3m 3st 2scal 3h 2t 3ness",
    "fix 1lag 3me 3sh 3t 3vor 2ee 2ight 3p 2oat 3ck 3or 3wer 2uid 3sh 2y 1oam 2cus 2g 2il 2ld 3low 2od 3t 2rce 3est 3get 3k 3tune 3um 3ward 2ssil 3ter 2und 2x 1ragile 3me 2equent 3sh 2iend 3nge 2og 3nt 3st 3wn 3zen 2uit 1uel 2n 3ny 2rnace 3y 2ture 0gadget 2in 2laxy 3lery 2me 2p 2rage 3bage 3den 3lic 3ment",
    "gas 3p 2te 3her 2uge 2ze 1eneral 3ius 3re 3tle 3uine 2sture 1host 1iant 2ft 2ggle 2nger 2raffe 3l 2ve 1lad 3nce 3re 3ss 2ide 3mpse 2obe 3om 3ry 3ve 3w 2ue 1oat 2ddess 2ld 2od 3se 2rilla 2spel 3sip 2vern 2wn 1rab 3ce 3in 3nt 3pe 3ss 3vity 2eat 3en 2id 3ef 3t 2ocery 3up 3w 2unt 1uard 2ess 2ide 3lt 3tar 2n",
    "gym 0habit 2ir 2lf 2mmer 3ster 2nd 2ppy 2rbor 3d 3sh 3vest 2t 2ve 2wk 2zard 1ead 3lth 3rt 3vy 2dgehog 2ight 2llo 3met 3p 2n 2ro 1idden 2gh 2ll 2nt 2p 2re 2story 1obby 2ckey 2ld 3e 3iday 3low 2me 2ney 2od 2pe 2rn 3ror 3se 2spital 3t 2tel 2ur 2ver 1ub 2ge 2man 3ble 3or 2ndred 3gry 3t 2rdle 3ry 3t 2sband",
    "hybrid 0ice 2on 1dea 3ntify 2le 1gnore 1ll 3egal 3ness 1mage 2itate 2mense 3une 2pact 3ose 3rove 3ulse 1nch 3lude 3ome 3rease 2dex 3icate 3oor 3ustry 2fant 3lict 3orm 2hale 3erit 2itial 2ject 3ury 2mate 2ner 3ocent 2put 2quiry 2sane 3ect 3ide 3pire 3tall 2tact 3erest 3o 2vest 3ite 3olve 1ron 1sland 2olate 2sue 1tem 1vory 0jacket 2guar 2r 2zz 1ealous 3ns 2lly 2wel",
    "job 2in 2ke 2urney 2y 1udge 2ice 2mp 2ngle 3ior 3k 2st 0kangaroo 1een 3p 2tchup 2y 1ick 2d 3ney 2nd 3gdom 2ss 2t 3chen 3e 3ten 2wi 1nee 2ife 2ock 3w 0lab 3el 3or 2dder 3y 2ke 2mp 2nguage 2ptop 2rge 2ter 3in 2ugh 3ndry 2va 2w 3n 3suit 2yer 2zy 1eader 3f 3rn 3ve 2cture 2ft 2g 3al 3end 2isure 2mon 2nd",
    "length 3s 2opard 2sson 2tter 2vel 1iar 2berty 3rary 2cense 2fe 3t 2ght 2ke 2mb 3it 2nk 2on 2quid 2st 2ttle 2ve 2zard 1oad 3n 2bster 2cal 3k 2gic 2nely 3g 2op 2ttery 2ud 3nge 2ve 2yal 1ucky 2ggage 2mber 2nar 3ch 2xury 1yrics 0machine 2d 2gic 3net 2id 3l 3n 2jor 2ke 2mmal 2n 3age 3date 3go 3sion 3ual 2ple 2rble 3ch 3gin",
    "marine 3ket 3riage 2sk 3s 3ter 2tch 3erial 3h 3rix 3ter 2ximum 2ze 1eadow 3n 3sure 3t 2chanic 2dal 3ia 2lody 3t 2mber 3ory 2ntion 3u 2rcy 3ge 3it 3ry 2sh 3sage 2tal 3hod 1iddle 3night 2lk 3lion 2mic 2nd 3imum 3or 3ute 2racle 3ror 2sery 3s 3take 2x 3ed 3ture 1obile 2del 3ify 2m 3ent 2nitor 3key 3ster 3th 2on 2ral 3e 3ning",
    "mosquito 2ther 3ion 3or 2untain 3se 2ve 3ie 1uch 2ffin 2le 3tiply 2scle 3eum 3hroom 3ic 3t 2tual 1yself 3tery 2th 0naive 2me 2pkin 2rrow 2sty 2tion 3ure 1ear 2ck 2ed 2gative 3lect 2ither 2phew 2rve 2st 2t 3work 2utral 2ver 2ws 2xt 1ice 2ght 1oble 2ise 2minee 2odle 2rmal 3th 2se 2table 3e 3hing 3ice 2vel 2w 1uclear 2mber 2rse 2t 0oak 1bey",
    "object 2lige 2scure 3erve 2tain 2vious 1ccur 2ean 2tober 1dor 1ff 3er 3ice 2ten 1il 1kay 1ld 2ive 2ympic 1mit 1nce 2e 2ion 2line 3y 1pen 3ra 2inion 2pose 2tion 1range 2bit 2chard 2der 3inary 2gan 2ient 3ginal 2phan 1strich 1ther 1utdoor 3er 3put 3side 1val 2en 3r 1wn 3er 1xygen 1yster 1zone 0pact 2ddle 2ge 2ir 2lace 3m 2nda 3el 3ic 3ther 2per",
    "parade 3ent 3k 3rot 3ty 2ss 2tch 3h 3ient 3rol 3tern 2use 2ve 2yment 1eace 3nut 3r 3sant 2lican 2n 3alty 3cil 2ople 2pper 2rfect 3mit 3son 2t 1hone 3to 2rase 2ysical 1iano 2cnic 3ture 2ece 2g 3eon 2ll 3ot 2nk 2oneer 2pe 2stol 2tch 2zza 1lace 3net 3stic 3te 3y 2ease 3dge 2uck 3g 3nge 1oem 3t 2int 2lar 3e 3ice 2nd 3y",
    "pool 2pular 2rtion 2sition 3sible 3t 2tato 3tery 2verty 2wder 3er 1ractice 3ise 2edict 3fer 3pare 3sent 3tty 3vent 2ice 3de 3mary 3nt 3ority 3son 3vate 3ze 2oblem 3cess 3duce 3fit 3gram 3ject 3mote 3of 3perty 3sper 3tect 3ud 3vide 1ublic 2dding 2ll 3p 3se 2mpkin 2nch 2pil 3py 2rchase 3ity 3pose 3se 2sh 2t 2zzle 1yramid 0quality 3ntum 3rter 2estion 2ick 3t 3z",
    "quote 0rabbit 2ccoon 3e 3k 2dar 3io 2il 3n 3se 2lly 2mp 2nch 3dom 3ge 2pid 2re 2te 3her 2ven 2w 2zor 1eady 3l 3son 2bel 3uild 2call 3eive 3ipe 3ord 3ycle 2duce 2flect 3orm 3use 2gion 3ret 3ular 2ject 2lax 3ease 3ief 3y 2main 3ember 3ind 3ove 2nder 3ew 3t 2open 2pair 3eat 3lace 3ort 2quire 2scue 3emble 3ist 3ource 3ponse 3ult 2tire",
    "retreat 3urn 2union 2veal 3iew 2ward 1hythm 1ib 3bon 2ce 3h 2de 3ge 2fle 2ght 3id 2ng 2ot 2pple 2sk 2tual 2val 3er 1oad 3st 2bot 3ust 2cket 2mance 2of 3kie 3m 2se 2tate 2ugh 3nd 3te 2yal 1ubber 2de 2g 2le 2n 3way 2ral 0sad 3dle 3ness 2fe 2il 2lad 3mon 3on 3t 3ute 2me 3ple 2nd 2tisfy 3oshi 2uce 3sage 2ve 2y",
    "scale 3n 3re 3tter 2ene 2heme 3ool 2ience 3ssors 2orpion 3ut 2rap 3een 3ipt 3ub 1ea 3rch 3son 3t 2cond 3ret 3tion 3urity 2ed 3k 2gment 2lect 3l 2minar 2nior 3se 3tence 2ries 3vice 2ssion 2ttle 3up 2ven 1hadow 3ft 3llow 3re 2ed 3ll 3riff 2ield 3ft 3ne 3p 3ver 2ock 3e 3ot 3p 3rt 3ulder 3ve 2rimp 3ug 2uffle 2y 1ibling 2ck 2de",
    "siege 2ght 3n 2lent 3k 3ly 3ver 2milar 3ple 2nce 3g 2ren 2ster 2tuate 2x 2ze 1kate 2etch 2i 3ll 3n 3rt 2ull 1lab 3m 2eep 3nder 2ice 3de 3ght 3m 2ogan 3t 3w 2ush 1mall 3rt 2ile 2oke 3oth 1nack 3ke 3p 2iff 2ow 1oap 2ccer 3ial 3k 2da 2ft 2lar 3dier 3id 3ution 3ve 2meone 2ng 2on 2rry 3t 2ul 3nd 3p",
    "source 3th 1pace 3re 3tial 3wn 2eak 3cial 3ed 3ll 3nd 2here 2ice 3der 3ke 3n 3rit 2lit 2oil 3nsor 3on 3rt 3t 2ray 3ead 3ing 2y 1quare 3eeze 3irrel 1table 3dium 3ff 3ge 3irs 3mp 3nd 3rt 3te 3y 2eak 3el 3m 3p 3reo 2ick 3ll 3ng 2ock 3mach 3ne 3ol 3ry 3ve 2rategy 3eet 3ike 3ong 3uggle 2udent 3ff 3mble 2yle 1ubject",
    "submit 3way 2ccess 3h 2dden 2ffer 2gar 3gest 2it 2mmer 2n 3ny 3set 2per 3ply 3reme 2re 3face 3ge 3prise 3round 3vey 2spect 3tain 1wallow 3mp 3p 3rm 2ear 3et 2ift 3m 3ng 3tch 2ord 1ymbol 3ptom 2rup 2stem 0table 2ckle 2g 2il 2lent 3k 2nk 2pe 2rget 2sk 3te 2ttoo 2xi 1each 3m 2ll 2n 3ant 3nis 3t 2rm 2st 2xt 1hank 3t",
    "theme 3n 3ory 3re 3y 2ing 3s 2ought 2ree 3ive 3ow 2umb 3nder 1icket 2de 2ger 2lt 2mber 3e 2ny 2p 2red 2ssue 2tle 1oast 2bacco 2day 3dler 2e 2gether 2ilet 2ken 2mato 3orrow 2ne 3gue 3ight 2ol 3th 2p 3ic 3ple 2rch 3nado 3toise 2ss 2tal 2urist 2ward 3er 3n 2y 1rack 3de 3ffic 3gic 3in 3nsfer 3p 3sh 3vel 3y 2eat 3e",
    "trend 2ial 3be 3ck 3gger 3m 3p 2ophy 3uble 2uck 3e 3ly 3mpet 3st 3th 2y 1ube 2ition 2mble 2na 3nel 2rkey 3n 3tle 1welve 3nty 2ice 3n 3st 2o 1ype 3ical 0ugly 1mbrella 1nable 3ware 2cle 3over 2der 3o 2fair 3old 2happy 2iform 3que 3t 3verse 2known 2lock 2til 2usual 2veil 1pdate 2grade 2hold 2on 2per 2set 1rban 2ge 1sage 2e 3d 3ful",
    "useless 2ual 1tility 0vacant 3uum 2gue 2lid 3ley 3ve 2n 3ish 2por 2rious 2st 2ult 1ehicle 2lvet 2ndor 3ture 3ue 2rb 3ify 3sion 3y 2ssel 2teran 1iable 2brant 2cious 3tory 2deo 2ew 2llage 2ntage 2olin 2rtual 3us 2sa 3it 3ual 2tal 2vid 1ocal 2ice 3d 2lcano 3ume 2te 2yage 0wage 3on 2it 2lk 3l 3nut 2nt 2rfare 3m 3rior 2sh 3p 3te 2ter 2ve",
    "way 1ealth 3pon 3r 3sel 3ther 2b 2dding 2ekend 2ird 2lcome 2st 2t 1hale 3t 2eat 3el 3n 3re 2ip 3sper 1ide 3th 2fe 2ld 3l 2n 3dow 3e 3g 3k 3ner 3ter 2re 2sdom 3e 3h 2tness 1olf 2man 2nder 2od 3l 2rd 3k 3ld 3ry 3th 1rap 2eck 3stle 2ist 3te 2ong 0yard 1ear 2llow 1ou 3ng 3th 0zebra 2ro 1one 2o",
];

/// How many lines `WORD_LINES` holds.
pub const LINE_COUNT: usize = 32;

/// A word from its token and the word before it: a token that starts with a
/// digit `d` stands for the first `d` letters of the word before, then the
/// rest of the token.
pub open spec fn expand_token(prev: Seq<char>, tok: Seq<char>) -> Seq<char> {
    if tok.len() > 0 && is_digit(tok[0]) {
        let d = (tok[0] as nat) - ('0' as nat);
        (if d <= prev.len() { prev.take(d) } else { prev }) + tok.drop_first()
    } else {
        tok
    }
}

/// The words that `toks` stand for, the word before the first being `prev`.
pub open spec fn expand_tokens(prev: Seq<char>, toks: Seq<Seq<char>>) -> Seq<Seq<char>>
    decreases toks.len(),
{
    if toks.len() == 0 {
        Seq::empty()
    } else {
        let w = expand_token(prev, toks[0]);
        seq![w] + expand_tokens(w, toks.drop_first())
    }
}

/// The words of one line.
pub open spec fn line_words(line: Seq<char>) -> Seq<Seq<char>> {
    expand_tokens(Seq::empty(), split_on(line, ' '))
}

/// The words of the first `k` lines.
pub open spec fn words_upto(k: nat) -> Seq<Seq<char>>
    decreases k,
{
    if k == 0 {
        Seq::empty()
    } else {
        words_upto((k - 1) as nat) + line_words(WORD_LINES@[k - 1]@)
    }
}

/// The whole list.
pub open spec fn all_words() -> Seq<Seq<char>> {
    words_upto(LINE_COUNT as nat)
}

/// Whether `w` is one of the words.
pub open spec fn in_wordlist(w: Seq<char>) -> bool {
    all_words().contains(w)
}

proof fn lemma_expand_tokens_len(prev: Seq<char>, toks: Seq<Seq<char>>)
    ensures
        expand_tokens(prev, toks).len() == toks.len(),
    decreases toks.len(),
{
    if toks.len() > 0 {
        lemma_expand_tokens_len(expand_token(prev, toks[0]), toks.drop_first());
    }
}

proof fn lemma_words_upto_len(k: nat)
    ensures
        words_upto(k).len() >= k,
    decreases k,
{
    if k > 0 {
        lemma_words_upto_len((k - 1) as nat);
        lemma_split_on_nonempty(WORD_LINES@[k - 1]@, ' ');
        lemma_expand_tokens_len(Seq::empty(), split_on(WORD_LINES@[k - 1]@, ' '));
    }
}

/// The list is never empty: every line holds at least one word.
pub proof fn lemma_wordlist_nonempty()
    ensures
        all_words().len() >= LINE_COUNT,
{
    lemma_words_upto_len(LINE_COUNT as nat);
}

/// The pieces of `s` split at `sep` hold only characters of `s`.
proof fn lemma_split_on_avoids(s: Seq<char>, sep: char, c: char)
    requires
        !s.contains(c),
    ensures
        forall|k: int| 0 <= k < split_on(s, sep).len() ==> !(#[trigger] split_on(s, sep)[k]).contains(c),
    decreases s.len(),
{
    if s.len() > 0 {
        assert(!s.drop_last().contains(c)) by {
            if s.drop_last().contains(c) {
                let t = choose|t: int| 0 <= t < s.drop_last().len() && s.drop_last()[t] == c;
                assert(s[t] == c);
            }
        }
        lemma_split_on_avoids(s.drop_last(), sep, c);
        lemma_split_on_nonempty(s.drop_last(), sep);
        let init = split_on(s.drop_last(), sep);
        assert(s.last() != c) by {
            assert(s[s.len() - 1] == s.last());
        }
        if s.last() != sep {
            assert forall|k: int| 0 <= k < split_on(s, sep).len() implies !(#[trigger] split_on(s, sep)[k]).contains(c) by {
                if k == init.len() - 1 {
                    let piece = init.last().push(s.last());
                    assert(split_on(s, sep)[k] == piece);
                    if piece.contains(c) {
                        let t = choose|t: int| 0 <= t < piece.len() && piece[t] == c;
                        if t < piece.len() - 1 {
                            assert(init.last()[t] == c);
                            assert(init[init.len() - 1].contains(c));
                        }
                    }
                } else {
                    assert(split_on(s, sep)[k] == init[k]);
                }
            }
        } else {
            assert forall|k: int| 0 <= k < split_on(s, sep).len() implies !(#[trigger] split_on(s, sep)[k]).contains(c) by {
                if k < init.len() {
                    assert(split_on(s, sep)[k] == init[k]);
                } else {
                    assert(split_on(s, sep)[k] == Seq::<char>::empty());
                }
            }
        }
    }
}

/// Expanding tokens that avoid `c`, after a word that avoids it, gives words
/// that avoid it.
proof fn lemma_expand_tokens_avoid(prev: Seq<char>, toks: Seq<Seq<char>>, c: char)
    requires
        !prev.contains(c),
        forall|k: int| 0 <= k < toks.len() ==> !(#[trigger] toks[k]).contains(c),
    ensures
        forall|k: int| 0 <= k < expand_tokens(prev, toks).len() ==> !(#[trigger] expand_tokens(prev, toks)[k]).contains(c),
    decreases toks.len(),
{
    if toks.len() > 0 {
        let tok = toks[0];
        let w = expand_token(prev, tok);
        assert(!tok.contains(c));
        assert(!w.contains(c)) by {
            if w.contains(c) {
                let t = choose|t: int| 0 <= t < w.len() && w[t] == c;
                if tok.len() > 0 && is_digit(tok[0]) {
                    let d = (tok[0] as nat) - ('0' as nat);
                    let head = if d <= prev.len() { prev.take(d as int) } else { prev };
                    if t < head.len() {
                        assert(prev[t] == c);
                    } else {
                        assert(tok[t - head.len() + 1] == c);
                    }
                } else {
                    assert(tok[t] == c);
                }
            }
        }
        assert forall|k: int| 0 <= k < toks.drop_first().len() implies !(#[trigger] toks.drop_first()[k]).contains(c) by {
            assert(toks.drop_first()[k] == toks[k + 1]);
        }
        lemma_expand_tokens_avoid(w, toks.drop_first(), c);
        let rest = expand_tokens(w, toks.drop_first());
        assert forall|k: int| 0 <= k < expand_tokens(prev, toks).len() implies !(#[trigger] expand_tokens(prev, toks)[k]).contains(c) by {
            if k == 0 {
                assert(expand_tokens(prev, toks)[k] == w);
            } else {
                assert(expand_tokens(prev, toks)[k] == rest[k - 1]);
            }
        }
    }
}

/// No line of the table holds a `-`.
proof fn lemma_lines_have_no_dash()
    ensures
        forall|k: int| 0 <= k < LINE_COUNT ==> !(#[trigger] WORD_LINES@[k]@).contains('-'),
{
    reveal_strlit("abandon 2ility 2le 2out 3ve 2sent 3orb 3tract 3urd 2use 1ccess 3ident 3ount 3use 2hieve 2id 2oustic 2quire 2ross 2t 3ion 3or 3ress 3ual 1dapt 2d 3ict 3ress 2just 2mit 2ult 2vance 3ice 1erobic 1ffair 3ord 2raid 1gain 2e 3nt 2ree 1head 1im 2r 3port 2sle 1larm 2bum 2cohol 2ert 2ien 2l 3ey 3ow 2most 2one 2pha 2ready 2so 2ter 2ways 1mateur 3zing 2ong");
    assert(!WORD_LINES@[0]@.contains('-')) by { assert(WORD_LINES@[0]@ == "abandon 2ility 2le 2out 3ve 2sent 3orb 3tract 3urd 2use 1ccess 3ident 3ount 3use 2hieve 2id 2oustic 2quire 2ross 2t 3ion 3or 3ress 3ual 1dapt 2d 3ict 3ress 2just 2mit 2ult 2vance 3ice 1erobic 1ffair 3ord 2raid 1gain 2e 3nt 2ree 1head 1im 2r 3port 2sle 1larm 2bum 2cohol 2ert 2ien 2l 3ey 3ow 2most 2one 2pha 2ready 2so 2ter 2ways 1mateur 3zing 2ong"@); }
    reveal_strlit("amount 2used 1nalyst 2chor 3ient 2ger 3le 3ry 2imal 2kle 2nounce 3ual 2other 2swer 2tenna 3ique 2xiety 2y 1part 2ology 2pear 3le 3rove 2ril 1rch 3tic 2ea 3na 2gue 2m 3ed 3or 3y 2ound 2range 3est 3ive 3ow 2t 3efact 3ist 3work 1sk 2pect 2sault 3et 3ist 3ume 2thma 1thlete 2om 2tack 3end 3itude 3ract 1uction 2dit 2gust 2nt 2thor 3o 3umn 1verage 2ocado");
    assert(!WORD_LINES@[1]@.contains('-')) by { assert(WORD_LINES@[1]@ == "amount 2used 1nalyst 2chor 3ient 2ger 3le 3ry 2imal 2kle 2nounce 3ual 2other 2swer 2tenna 3ique 2xiety 2y 1part 2ology 2pear 3le 3rove 2ril 1rch 3tic 2ea 3na 2gue 2m 3ed 3or 3y 2ound 2range 3est 3ive 3ow 2t 3efact 3ist 3work 1sk 2pect 2sault 3et 3ist 3ume 2thma 1thlete 2om 2tack 3end 3itude 3ract 1uction 2dit 2gust 2nt 2thor 3o 3umn 1verage 2ocado"@); }
    reveal_strlit("avoid 1wake 3re 3y 2esome 2ful 2kward 1xis 0baby 2chelor 3on 2dge 2g 2lance 3cony 3l 2mboo 2nana 3ner 2r 3ely 3gain 3rel 2se 3ic 3ket 2ttle 1each 3n 3uty 2cause 3ome 2ef 2fore 2gin 2have 3ind 2lieve 3ow 3t 2nch 3efit 2st 2tray 3ter 3ween 2yond 1icycle 2d 2ke 2nd 2ology 2rd 3th 2tter 1lack 3de 3me 3nket 3st 2eak 3ss 2ind 2ood");
    assert(!WORD_LINES@[2]@.contains('-')) by { assert(WORD_LINES@[2]@ == "avoid 1wake 3re 3y 2esome 2ful 2kward 1xis 0baby 2chelor 3on 2dge 2g 2lance 3cony 3l 2mboo 2nana 3ner 2r 3ely 3gain 3rel 2se 3ic 3ket 2ttle 1each 3n 3uty 2cause 3ome 2ef 2fore 2gin 2have 3ind 2lieve 3ow 3t 2nch 3efit 2st 2tray 3ter 3ween 2yond 1icycle 2d 2ke 2nd 2ology 2rd 3th 2tter 1lack 3de 3me 3nket 3st 2eak 3ss 2ind 2ood"@); }
    reveal_strlit("blossom 3use 2ue 3r 3sh 1oard 3t 2dy 2il 2mb 2ne 3us 2ok 3st 2rder 3ing 3row 2ss 2ttom 2unce 2x 2y 1racket 3in 3nd 3ss 3ve 2ead 3eze 2ick 3dge 3ef 3ght 3ng 3sk 2occoli 3ken 3nze 3om 3ther 3wn 2ush 1ubble 2ddy 3get 2ffalo 2ild 2lb 3k 3let 2ndle 3ker 2rden 3ger 3st 2s 3iness 3y 2tter 2yer 2zz 0cabbage 3in 3le");
    assert(!WORD_LINES@[3]@.contains('-')) by { assert(WORD_LINES@[3]@ == "blossom 3use 2ue 3r 3sh 1oard 3t 2dy 2il 2mb 2ne 3us 2ok 3st 2rder 3ing 3row 2ss 2ttom 2unce 2x 2y 1racket 3in 3nd 3ss 3ve 2ead 3eze 2ick 3dge 3ef 3ght 3ng 3sk 2occoli 3ken 3nze 3om 3ther 3wn 2ush 1ubble 2ddy 3get 2ffalo 2ild 2lb 3k 3let 2ndle 3ker 2rden 3ger 3st 2s 3iness 3y 2tter 2yer 2zz 0cabbage 3in 3le"@); }
    reveal_strlit("cactus 2ge 2ke 2ll 3m 2mera 3p 2n 3al 3cel 3dy 3non 3oe 3vas 3yon 2pable 3ital 3tain 2r 3bon 3d 3go 3pet 3ry 3t 2se 3h 3ino 3tle 3ual 2t 3alog 3ch 3egory 3tle 2ught 3se 3tion 2ve 1eiling 2lery 2ment 2nsus 3tury 2real 3tain 1hair 3lk 3mpion 3nge 3os 3pter 3rge 3se 3t 2eap 3ck 3ese 3f 3rry 3st 2icken 3ef 3ld");
    assert(!WORD_LINES@[4]@.contains('-')) by { assert(WORD_LINES@[4]@ == "cactus 2ge 2ke 2ll 3m 2mera 3p 2n 3al 3cel 3dy 3non 3oe 3vas 3yon 2pable 3ital 3tain 2r 3bon 3d 3go 3pet 3ry 3t 2se 3h 3ino 3tle 3ual 2t 3alog 3ch 3egory 3tle 2ught 3se 3tion 2ve 1eiling 2lery 2ment 2nsus 3tury 2real 3tain 1hair 3lk 3mpion 3nge 3os 3pter 3rge 3se 3t 2eap 3ck 3ese 3f 3rry 3st 2icken 3ef 3ld"@); }
    reveal_strlit("chimney 2oice 3ose 2ronic 2uckle 3nk 3rn 1igar 2nnamon 2rcle 2tizen 3y 2vil 1laim 3p 3rify 3w 3y 2ean 3rk 3ver 2ick 3ent 3ff 3mb 3nic 3p 2ock 3g 3se 3th 3ud 3wn 2ub 3mp 3ster 3tch 1oach 3st 2conut 2de 2ffee 2il 3n 2llect 3or 3umn 2mbine 3e 3fort 3ic 3mon 3pany 2ncert 3duct 3firm 3gress 3nect 3sider 3trol 3vince 2ok 3l 2pper");
    assert(!WORD_LINES@[5]@.contains('-')) by { assert(WORD_LINES@[5]@ == "chimney 2oice 3ose 2ronic 2uckle 3nk 3rn 1igar 2nnamon 2rcle 2tizen 3y 2vil 1laim 3p 3rify 3w 3y 2ean 3rk 3ver 2ick 3ent 3ff 3mb 3nic 3p 2ock 3g 3se 3th 3ud 3wn 2ub 3mp 3ster 3tch 1oach 3st 2conut 2de 2ffee 2il 3n 2llect 3or 3umn 2mbine 3e 3fort 3ic 3mon 3pany 2ncert 3duct 3firm 3gress 3nect 3sider 3trol 3vince 2ok 3l 2pper"@); }
    reveal_strlit("copy 2ral 3e 3n 3rect 2st 2tton 2uch 3ntry 3ple 3rse 3sin 2ver 2yote 1rack 3dle 3ft 3m 3ne 3sh 3ter 3wl 3zy 2eam 3dit 3ek 3w 2icket 3me 3sp 3tic 2op 3ss 3uch 3wd 2ucial 3el 3ise 3mble 3nch 3sh 2y 3stal 1ube 2lture 2p 3board 2rious 3rent 3tain 3ve 2shion 3tom 2te 1ycle 0dad 2mage 3p 2nce 3ger 2ring 2sh 2ughter 2wn");
    assert(!WORD_LINES@[6]@.contains('-')) by { assert(WORD_LINES@[6]@ == "copy 2ral 3e 3n 3rect 2st 2tton 2uch 3ntry 3ple 3rse 3sin 2ver 2yote 1rack 3dle 3ft 3m 3ne 3sh 3ter 3wl 3zy 2eam 3dit 3ek 3w 2icket 3me 3sp 3tic 2op 3ss 3uch 3wd 2ucial 3el 3ise 3mble 3nch 3sh 2y 3stal 1ube 2lture 2p 3board 2rious 3rent 3tain 3ve 2shion 3tom 2te 1ycle 0dad 2mage 3p 2nce 3ger 2ring 2sh 2ughter 2wn"@); }
    reveal_strlit("day 1eal 2bate 3ris 2cade 3ember 3ide 3line 3orate 3rease 2er 2fense 3ine 3y 2gree 2lay 3iver 2mand 3ise 2nial 3tist 3y 2part 3end 3osit 3th 3uty 2rive 2scribe 3ert 3ign 3k 3pair 3troy 2tail 3ect 2velop 3ice 3ote 1iagram 3l 3mond 3ry 2ce 2esel 3t 2ffer 2gital 3nity 2lemma 2nner 3osaur 2rect 3t 2sagree 3cover 3ease 3h 3miss 3order 3play 3tance 2vert 3ide");
    assert(!WORD_LINES@[7]@.contains('-')) by { assert(WORD_LINES@[7]@ == "day 1eal 2bate 3ris 2cade 3ember 3ide 3line 3orate 3rease 2er 2fense 3ine 3y 2gree 2lay 3iver 2mand 3ise 2nial 3tist 3y 2part 3end 3osit 3th 3uty 2rive 2scribe 3ert 3ign 3k 3pair 3troy 2tail 3ect 2velop 3ice 3ote 1iagram 3l 3mond 3ry 2ce 2esel 3t 2ffer 2gital 3nity 2lemma 2nner 3osaur 2rect 3t 2sagree 3cover 3ease 3h 3miss 3order 3play 3tance 2vert 3ide"@); }
    reveal_strlit("divorce 2zzy 1octor 3ument 2g 2ll 3phin 2main 2nate 3key 3or 2or 2se 2uble 2ve 1raft 3gon 3ma 3stic 3w 2eam 3ss 2ift 3ll 3nk 3p 3ve 2op 2um 2y 1uck 2mb 2ne 2ring 2st 2tch 3y 1warf 1ynamic 0eager 3le 2rly 3n 3th 2sily 3t 3y 1cho 2ology 3nomy 1dge 2it 2ucate 1ffort 1gg 1ight 2ther 1lbow 2der 2ectric 3gant 3ment 3phant 3vator");
    assert(!WORD_LINES@[8]@.contains('-')) by { assert(WORD_LINES@[8]@ == "divorce 2zzy 1octor 3ument 2g 2ll 3phin 2main 2nate 3key 3or 2or 2se 2uble 2ve 1raft 3gon 3ma 3stic 3w 2eam 3ss 2ift 3ll 3nk 3p 3ve 2op 2um 2y 1uck 2mb 2ne 2ring 2st 2tch 3y 1warf 1ynamic 0eager 3le 2rly 3n 3th 2sily 3t 3y 1cho 2ology 3nomy 1dge 2it 2ucate 1ffort 1gg 1ight 2ther 1lbow 2der 2ectric 3gant 3ment 3phant 3vator"@); }
    reveal_strlit("elite 2se 1mbark 3ody 3race 2erge 2otion 2ploy 3ower 3ty 1nable 3ct 2d 3less 3orse 2emy 3rgy 2force 2gage 3ine 2hance 2joy 2list 2ough 2rich 3oll 2sure 2ter 3ire 3ry 2velope 1pisode 1qual 3ip 1ra 3se 2ode 3sion 2ror 2upt 1scape 2say 3ence 2tate 1ternal 2hics 1vidence 3l 2oke 3lve 1xact 3mple 2cess 3hange 3ite 3lude 3use 2ecute 3rcise 2haust 3ibit 2ile 3st 3t");
    assert(!WORD_LINES@[9]@.contains('-')) by { assert(WORD_LINES@[9]@ == "elite 2se 1mbark 3ody 3race 2erge 2otion 2ploy 3ower 3ty 1nable 3ct 2d 3less 3orse 2emy 3rgy 2force 2gage 3ine 2hance 2joy 2list 2ough 2rich 3oll 2sure 2ter 3ire 3ry 2velope 1pisode 1qual 3ip 1ra 3se 2ode 3sion 2ror 2upt 1scape 2say 3ence 2tate 1ternal 2hics 1vidence 3l 2oke 3lve 1xact 3mple 2cess 3hange 3ite 3lude 3use 2ecute 3rcise 2haust 3ibit 2ile 3st 3t"@); }
    reveal_strlit("exotic 2pand 3ect 3ire 3lain 3ose 3ress 2tend 3ra 1ye 3brow 0fabric 2ce 3ulty 2de 2int 3th 2ll 3se 2me 3ily 3ous 2n 3cy 3tasy 2rm 2shion 2t 3al 3her 3igue 2ult 2vorite 1eature 2bruary 2deral 2e 3d 3l 2male 2nce 2stival 2tch 2ver 2w 1iber 2ction 2eld 2gure 2le 3m 3ter 2nal 3d 3e 3ger 3ish 2re 3m 3st 2scal 3h 2t 3ness");
    assert(!WORD_LINES@[10]@.contains('-')) by { assert(WORD_LINES@[10]@ == "exotic 2pand 3ect 3ire 3lain 3ose 3ress 2tend 3ra 1ye 3brow 0fabric 2ce 3ulty 2de 2int 3th 2ll 3se 2me 3ily 3ous 2n 3cy 3tasy 2rm 2shion 2t 3al 3her 3igue 2ult 2vorite 1eature 2bruary 2deral 2e 3d 3l 2male 2nce 2stival 2tch 2ver 2w 1iber 2ction 2eld 2gure 2le 3m 3ter 2nal 3d 3e 3ger 3ish 2re 3m 3st 2scal 3h 2t 3ness"@); }
    reveal_strlit("fix 1lag 3me 3sh 3t 3vor 2ee 2ight 3p 2oat 3ck 3or 3wer 2uid 3sh 2y 1oam 2cus 2g 2il 2ld 3low 2od 3t 2rce 3est 3get 3k 3tune 3um 3ward 2ssil 3ter 2und 2x 1ragile 3me 2equent 3sh 2iend 3nge 2og 3nt 3st 3wn 3zen 2uit 1uel 2n 3ny 2rnace 3y 2ture 0gadget 2in 2laxy 3lery 2me 2p 2rage 3bage 3den 3lic 3ment");
    assert(!WORD_LINES@[11]@.contains('-')) by { assert(WORD_LINES@[11]@ == "fix 1lag 3me 3sh 3t 3vor 2ee 2ight 3p 2oat 3ck 3or 3wer 2uid 3sh 2y 1oam 2cus 2g 2il 2ld 3low 2od 3t 2rce 3est 3get 3k 3tune 3um 3ward 2ssil 3ter 2und 2x 1ragile 3me 2equent 3sh 2iend 3nge 2og 3nt 3st 3wn 3zen 2uit 1uel 2n 3ny 2rnace 3y 2ture 0gadget 2in 2laxy 3lery 2me 2p 2rage 3bage 3den 3lic 3ment"@); }
    reveal_strlit("gas 3p 2te 3her 2uge 2ze 1eneral 3ius 3re 3tle 3uine 2sture 1host 1iant 2ft 2ggle 2nger 2raffe 3l 2ve 1lad 3nce 3re 3ss 2ide 3mpse 2obe 3om 3ry 3ve 3w 2ue 1oat 2ddess 2ld 2od 3se 2rilla 2spel 3sip 2vern 2wn 1rab 3ce 3in 3nt 3pe 3ss 3vity 2eat 3en 2id 3ef 3t 2ocery 3up 3w 2unt 1uard 2ess 2ide 3lt 3tar 2n");
    assert(!WORD_LINES@[12]@.contains('-')) by { assert(WORD_LINES@[12]@ == "gas 3p 2te 3her 2uge 2ze 1eneral 3ius 3re 3tle 3uine 2sture 1host 1iant 2ft 2ggle 2nger 2raffe 3l 2ve 1lad 3nce 3re 3ss 2ide 3mpse 2obe 3om 3ry 3ve 3w 2ue 1oat 2ddess 2ld 2od 3se 2rilla 2spel 3sip 2vern 2wn 1rab 3ce 3in 3nt 3pe 3ss 3vity 2eat 3en 2id 3ef 3t 2ocery 3up 3w 2unt 1uard 2ess 2ide 3lt 3tar 2n"@); }
    reveal_strlit("gym 0habit 2ir 2lf 2mmer 3ster 2nd 2ppy 2rbor 3d 3sh 3vest 2t 2ve 2wk 2zard 1ead 3lth 3rt 3vy 2dgehog 2ight 2llo 3met 3p 2n 2ro 1idden 2gh 2ll 2nt 2p 2re 2story 1obby 2ckey 2ld 3e 3iday 3low 2me 2ney 2od 2pe 2rn 3ror 3se 2spital 3t 2tel 2ur 2ver 1ub 2ge 2man 3ble 3or 2ndred 3gry 3t 2rdle 3ry 3t 2sband");
    assert(!WORD_LINES@[13]@.contains('-')) by { assert(WORD_LINES@[13]@ == "gym 0habit 2ir 2lf 2mmer 3ster 2nd 2ppy 2rbor 3d 3sh 3vest 2t 2ve 2wk 2zard 1ead 3lth 3rt 3vy 2dgehog 2ight 2llo 3met 3p 2n 2ro 1idden 2gh 2ll 2nt 2p 2re 2story 1obby 2ckey 2ld 3e 3iday 3low 2me 2ney 2od 2pe 2rn 3ror 3se 2spital 3t 2tel 2ur 2ver 1ub 2ge 2man 3ble 3or 2ndred 3gry 3t 2rdle 3ry 3t 2sband"@); }
    reveal_strlit("hybrid 0ice 2on 1dea 3ntify 2le 1gnore 1ll 3egal 3ness 1mage 2itate 2mense 3une 2pact 3ose 3rove 3ulse 1nch 3lude 3ome 3rease 2dex 3icate 3oor 3ustry 2fant 3lict 3orm 2hale 3erit 2itial 2ject 3ury 2mate 2ner 3ocent 2put 2quiry 2sane 3ect 3ide 3pire 3tall 2tact 3erest 3o 2vest 3ite 3olve 1ron 1sland 2olate 2sue 1tem 1vory 0jacket 2guar 2r 2zz 1ealous 3ns 2lly 2wel");
    assert(!WORD_LINES@[14]@.contains('-')) by { assert(WORD_LINES@[14]@ == "hybrid 0ice 2on 1dea 3ntify 2le 1gnore 1ll 3egal 3ness 1mage 2itate 2mense 3une 2pact 3ose 3rove 3ulse 1nch 3lude 3ome 3rease 2dex 3icate 3oor 3ustry 2fant 3lict 3orm 2hale 3erit 2itial 2ject 3ury 2mate 2ner 3ocent 2put 2quiry 2sane 3ect 3ide 3pire 3tall 2tact 3erest 3o 2vest 3ite 3olve 1ron 1sland 2olate 2sue 1tem 1vory 0jacket 2guar 2r 2zz 1ealous 3ns 2lly 2wel"@); }
    reveal_strlit("job 2in 2ke 2urney 2y 1udge 2ice 2mp 2ngle 3ior 3k 2st 0kangaroo 1een 3p 2tchup 2y 1ick 2d 3ney 2nd 3gdom 2ss 2t 3chen 3e 3ten 2wi 1nee 2ife 2ock 3w 0lab 3el 3or 2dder 3y 2ke 2mp 2nguage 2ptop 2rge 2ter 3in 2ugh 3ndry 2va 2w 3n 3suit 2yer 2zy 1eader 3f 3rn 3ve 2cture 2ft 2g 3al 3end 2isure 2mon 2nd");
    assert(!WORD_LINES@[15]@.contains('-')) by { assert(WORD_LINES@[15]@ == "job 2in 2ke 2urney 2y 1udge 2ice 2mp 2ngle 3ior 3k 2st 0kangaroo 1een 3p 2tchup 2y 1ick 2d 3ney 2nd 3gdom 2ss 2t 3chen 3e 3ten 2wi 1nee 2ife 2ock 3w 0lab 3el 3or 2dder 3y 2ke 2mp 2nguage 2ptop 2rge 2ter 3in 2ugh 3ndry 2va 2w 3n 3suit 2yer 2zy 1eader 3f 3rn 3ve 2cture 2ft 2g 3al 3end 2isure 2mon 2nd"@); }
    reveal_strlit("length 3s 2opard 2sson 2tter 2vel 1iar 2berty 3rary 2cense 2fe 3t 2ght 2ke 2mb 3it 2nk 2on 2quid 2st 2ttle 2ve 2zard 1oad 3n 2bster 2cal 3k 2gic 2nely 3g 2op 2ttery 2ud 3nge 2ve 2yal 1ucky 2ggage 2mber 2nar 3ch 2xury 1yrics 0machine 2d 2gic 3net 2id 3l 3n 2jor 2ke 2mmal 2n 3age 3date 3go 3sion 3ual 2ple 2rble 3ch 3gin");
    assert(!WORD_LINES@[16]@.contains('-')) by { assert(WORD_LINES@[16]@ == "length 3s 2opard 2sson 2tter 2vel 1iar 2berty 3rary 2cense 2fe 3t 2ght 2ke 2mb 3it 2nk 2on 2quid 2st 2ttle 2ve 2zard 1oad 3n 2bster 2cal 3k 2gic 2nely 3g 2op 2ttery 2ud 3nge 2ve 2yal 1ucky 2ggage 2mber 2nar 3ch 2xury 1yrics 0machine 2d 2gic 3net 2id 3l 3n 2jor 2ke 2mmal 2n 3age 3date 3go 3sion 3ual 2ple 2rble 3ch 3gin"@); }
    reveal_strlit("marine 3ket 3riage 2sk 3s 3ter 2tch 3erial 3h 3rix 3ter 2ximum 2ze 1eadow 3n 3sure 3t 2chanic 2dal 3ia 2lody 3t 2mber 3ory 2ntion 3u 2rcy 3ge 3it 3ry 2sh 3sage 2tal 3hod 1iddle 3night 2lk 3lion 2mic 2nd 3imum 3or 3ute 2racle 3ror 2sery 3s 3take 2x 3ed 3ture 1obile 2del 3ify 2m 3ent 2nitor 3key 3ster 3th 2on 2ral 3e 3ning");
    assert(!WORD_LINES@[17]@.contains('-')) by { assert(WORD_LINES@[17]@ == "marine 3ket 3riage 2sk 3s 3ter 2tch 3erial 3h 3rix 3ter 2ximum 2ze 1eadow 3n 3sure 3t 2chanic 2dal 3ia 2lody 3t 2mber 3ory 2ntion 3u 2rcy 3ge 3it 3ry 2sh 3sage 2tal 3hod 1iddle 3night 2lk 3lion 2mic 2nd 3imum 3or 3ute 2racle 3ror 2sery 3s 3take 2x 3ed 3ture 1obile 2del 3ify 2m 3ent 2nitor 3key 3ster 3th 2on 2ral 3e 3ning"@); }
    reveal_strlit("mosquito 2ther 3ion 3or 2untain 3se 2ve 3ie 1uch 2ffin 2le 3tiply 2scle 3eum 3hroom 3ic 3t 2tual 1yself 3tery 2th 0naive 2me 2pkin 2rrow 2sty 2tion 3ure 1ear 2ck 2ed 2gative 3lect 2ither 2phew 2rve 2st 2t 3work 2utral 2ver 2ws 2xt 1ice 2ght 1oble 2ise 2minee 2odle 2rmal 3th 2se 2table 3e 3hing 3ice 2vel 2w 1uclear 2mber 2rse 2t 0oak 1bey");
    assert(!WORD_LINES@[18]@.contains('-')) by { assert(WORD_LINES@[18]@ == "mosquito 2ther 3ion 3or 2untain 3se 2ve 3ie 1uch 2ffin 2le 3tiply 2scle 3eum 3hroom 3ic 3t 2tual 1yself 3tery 2th 0naive 2me 2pkin 2rrow 2sty 2tion 3ure 1ear 2ck 2ed 2gative 3lect 2ither 2phew 2rve 2st 2t 3work 2utral 2ver 2ws 2xt 1ice 2ght 1oble 2ise 2minee 2odle 2rmal 3th 2se 2table 3e 3hing 3ice 2vel 2w 1uclear 2mber 2rse 2t 0oak 1bey"@); }
    reveal_strlit("object 2lige 2scure 3erve 2tain 2vious 1ccur 2ean 2tober 1dor 1ff 3er 3ice 2ten 1il 1kay 1ld 2ive 2ympic 1mit 1nce 2e 2ion 2line 3y 1pen 3ra 2inion 2pose 2tion 1range 2bit 2chard 2der 3inary 2gan 2ient 3ginal 2phan 1strich 1ther 1utdoor 3er 3put 3side 1val 2en 3r 1wn 3er 1xygen 1yster 1zone 0pact 2ddle 2ge 2ir 2lace 3m 2nda 3el 3ic 3ther 2per");
    assert(!WORD_LINES@[19]@.contains('-')) by { assert(WORD_LINES@[19]@ == "object 2lige 2scure 3erve 2tain 2vious 1ccur 2ean 2tober 1dor 1ff 3er 3ice 2ten 1il 1kay 1ld 2ive 2ympic 1mit 1nce 2e 2ion 2line 3y 1pen 3ra 2inion 2pose 2tion 1range 2bit 2chard 2der 3inary 2gan 2ient 3ginal 2phan 1strich 1ther 1utdoor 3er 3put 3side 1val 2en 3r 1wn 3er 1xygen 1yster 1zone 0pact 2ddle 2ge 2ir 2lace 3m 2nda 3el 3ic 3ther 2per"@); }
    reveal_strlit("parade 3ent 3k 3rot 3ty 2ss 2tch 3h 3ient 3rol 3tern 2use 2ve 2yment 1eace 3nut 3r 3sant 2lican 2n 3alty 3cil 2ople 2pper 2rfect 3mit 3son 2t 1hone 3to 2rase 2ysical 1iano 2cnic 3ture 2ece 2g 3eon 2ll 3ot 2nk 2oneer 2pe 2stol 2tch 2zza 1lace 3net 3stic 3te 3y 2ease 3dge 2uck 3g 3nge 1oem 3t 2int 2lar 3e 3ice 2nd 3y");
    assert(!WORD_LINES@[20]@.contains('-')) by { assert(WORD_LINES@[20]@ == "parade 3ent 3k 3rot 3ty 2ss 2tch 3h 3ient 3rol 3tern 2use 2ve 2yment 1eace 3nut 3r 3sant 2lican 2n 3alty 3cil 2ople 2pper 2rfect 3mit 3son 2t 1hone 3to 2rase 2ysical 1iano 2cnic 3ture 2ece 2g 3eon 2ll 3ot 2nk 2oneer 2pe 2stol 2tch 2zza 1lace 3net 3stic 3te 3y 2ease 3dge 2uck 3g 3nge 1oem 3t 2int 2lar 3e 3ice 2nd 3y"@); }
    reveal_strlit("pool 2pular 2rtion 2sition 3sible 3t 2tato 3tery 2verty 2wder 3er 1ractice 3ise 2edict 3fer 3pare 3sent 3tty 3vent 2ice 3de 3mary 3nt 3ority 3son 3vate 3ze 2oblem 3cess 3duce 3fit 3gram 3ject 3mote 3of 3perty 3sper 3tect 3ud 3vide 1ublic 2dding 2ll 3p 3se 2mpkin 2nch 2pil 3py 2rchase 3ity 3pose 3se 2sh 2t 2zzle 1yramid 0quality 3ntum 3rter 2estion 2ick 3t 3z");
    assert(!WORD_LINES@[21]@.contains('-')) by { assert(WORD_LINES@[21]@ == "pool 2pular 2rtion 2sition 3sible 3t 2tato 3tery 2verty 2wder 3er 1ractice 3ise 2edict 3fer 3pare 3sent 3tty 3vent 2ice 3de 3mary 3nt 3ority 3son 3vate 3ze 2oblem 3cess 3duce 3fit 3gram 3ject 3mote 3of 3perty 3sper 3tect 3ud 3vide 1ublic 2dding 2ll 3p 3se 2mpkin 2nch 2pil 3py 2rchase 3ity 3pose 3se 2sh 2t 2zzle 1yramid 0quality 3ntum 3rter 2estion 2ick 3t 3z"@); }
    reveal_strlit("quote 0rabbit 2ccoon 3e 3k 2dar 3io 2il 3n 3se 2lly 2mp 2nch 3dom 3ge 2pid 2re 2te 3her 2ven 2w 2zor 1eady 3l 3son 2bel 3uild 2call 3eive 3ipe 3ord 3ycle 2duce 2flect 3orm 3use 2gion 3ret 3ular 2ject 2lax 3ease 3ief 3y 2main 3ember 3ind 3ove 2nder 3ew 3t 2open 2pair 3eat 3lace 3ort 2quire 2scue 3emble 3ist 3ource 3ponse 3ult 2tire");
    assert(!WORD_LINES@[22]@.contains('-')) by { assert(WORD_LINES@[22]@ == "quote 0rabbit 2ccoon 3e 3k 2dar 3io 2il 3n 3se 2lly 2mp 2nch 3dom 3ge 2pid 2re 2te 3her 2ven 2w 2zor 1eady 3l 3son 2bel 3uild 2call 3eive 3ipe 3ord 3ycle 2duce 2flect 3orm 3use 2gion 3ret 3ular 2ject 2lax 3ease 3ief 3y 2main 3ember 3ind 3ove 2nder 3ew 3t 2open 2pair 3eat 3lace 3ort 2quire 2scue 3emble 3ist 3ource 3ponse 3ult 2tire"@); }
    reveal_strlit("retreat 3urn 2union 2veal 3iew 2ward 1hythm 1ib 3bon 2ce 3h 2de 3ge 2fle 2ght 3id 2ng 2ot 2pple 2sk 2tual 2val 3er 1oad 3st 2bot 3ust 2cket 2mance 2of 3kie 3m 2se 2tate 2ugh 3nd 3te 2yal 1ubber 2de 2g 2le 2n 3way 2ral 0sad 3dle 3ness 2fe 2il 2lad 3mon 3on 3t 3ute 2me 3ple 2nd 2tisfy 3oshi 2uce 3sage 2ve 2y");
    assert(!WORD_LINES@[23]@.contains('-')) by { assert(WORD_LINES@[23]@ == "retreat 3urn 2union 2veal 3iew 2ward 1hythm 1ib 3bon 2ce 3h 2de 3ge 2fle 2ght 3id 2ng 2ot 2pple 2sk 2tual 2val 3er 1oad 3st 2bot 3ust 2cket 2mance 2of 3kie 3m 2se 2tate 2ugh 3nd 3te 2yal 1ubber 2de 2g 2le 2n 3way 2ral 0sad 3dle 3ness 2fe 2il 2lad 3mon 3on 3t 3ute 2me 3ple 2nd 2tisfy 3oshi 2uce 3sage 2ve 2y"@); }
    reveal_strlit("scale 3n 3re 3tter 2ene 2heme 3ool 2ience 3ssors 2orpion 3ut 2rap 3een 3ipt 3ub 1ea 3rch 3son 3t 2cond 3ret 3tion 3urity 2ed 3k 2gment 2lect 3l 2minar 2nior 3se 3tence 2ries 3vice 2ssion 2ttle 3up 2ven 1hadow 3ft 3llow 3re 2ed 3ll 3riff 2ield 3ft 3ne 3p 3ver 2ock 3e 3ot 3p 3rt 3ulder 3ve 2rimp 3ug 2uffle 2y 1ibling 2ck 2de");
    assert(!WORD_LINES@[24]@.contains('-')) by { assert(WORD_LINES@[24]@ == "scale 3n 3re 3tter 2ene 2heme 3ool 2ience 3ssors 2orpion 3ut 2rap 3een 3ipt 3ub 1ea 3rch 3son 3t 2cond 3ret 3tion 3urity 2ed 3k 2gment 2lect 3l 2minar 2nior 3se 3tence 2ries 3vice 2ssion 2ttle 3up 2ven 1hadow 3ft 3llow 3re 2ed 3ll 3riff 2ield 3ft 3ne 3p 3ver 2ock 3e 3ot 3p 3rt 3ulder 3ve 2rimp 3ug 2uffle 2y 1ibling 2ck 2de"@); }
    reveal_strlit("siege 2ght 3n 2lent 3k 3ly 3ver 2milar 3ple 2nce 3g 2ren 2ster 2tuate 2x 2ze 1kate 2etch 2i 3ll 3n 3rt 2ull 1lab 3m 2eep 3nder 2ice 3de 3ght 3m 2ogan 3t 3w 2ush 1mall 3rt 2ile 2oke 3oth 1nack 3ke 3p 2iff 2ow 1oap 2ccer 3ial 3k 2da 2ft 2lar 3dier 3id 3ution 3ve 2meone 2ng 2on 2rry 3t 2ul 3nd 3p");
    assert(!WORD_LINES@[25]@.contains('-')) by { assert(WORD_LINES@[25]@ == "siege 2ght 3n 2lent 3k 3ly 3ver 2milar 3ple 2nce 3g 2ren 2ster 2tuate 2x 2ze 1kate 2etch 2i 3ll 3n 3rt 2ull 1lab 3m 2eep 3nder 2ice 3de 3ght 3m 2ogan 3t 3w 2ush 1mall 3rt 2ile 2oke 3oth 1nack 3ke 3p 2iff 2ow 1oap 2ccer 3ial 3k 2da 2ft 2lar 3dier 3id 3ution 3ve 2meone 2ng 2on 2rry 3t 2ul 3nd 3p"@); }
    reveal_strlit("source 3th 1pace 3re 3tial 3wn 2eak 3cial 3ed 3ll 3nd 2here 2ice 3der 3ke 3n 3rit 2lit 2oil 3nsor 3on 3rt 3t 2ray 3ead 3ing 2y 1quare 3eeze 3irrel 1table 3dium 3ff 3ge 3irs 3mp 3nd 3rt 3te 3y 2eak 3el 3m 3p 3reo 2ick 3ll 3ng 2ock 3mach 3ne 3ol 3ry 3ve 2rategy 3eet 3ike 3ong 3uggle 2udent 3ff 3mble 2yle 1ubject");
    assert(!WORD_LINES@[26]@.contains('-')) by { assert(WORD_LINES@[26]@ == "source 3th 1pace 3re 3tial 3wn 2eak 3cial 3ed 3ll 3nd 2here 2ice 3der 3ke 3n 3rit 2lit 2oil 3nsor 3on 3rt 3t 2ray 3ead 3ing 2y 1quare 3eeze 3irrel 1table 3dium 3ff 3ge 3irs 3mp 3nd 3rt 3te 3y 2eak 3el 3m 3p 3reo 2ick 3ll 3ng 2ock 3mach 3ne 3ol 3ry 3ve 2rategy 3eet 3ike 3ong 3uggle 2udent 3ff 3mble 2yle 1ubject"@); }
    reveal_strlit("submit 3way 2ccess 3h 2dden 2ffer 2gar 3gest 2it 2mmer 2n 3ny 3set 2per 3ply 3reme 2re 3face 3ge 3prise 3round 3vey 2spect 3tain 1wallow 3mp 3p 3rm 2ear 3et 2ift 3m 3ng 3tch 2ord 1ymbol 3ptom 2rup 2stem 0table 2ckle 2g 2il 2lent 3k 2nk 2pe 2rget 2sk 3te 2ttoo 2xi 1each 3m 2ll 2n 3ant 3nis 3t 2rm 2st 2xt 1hank 3t");
    assert(!WORD_LINES@[27]@.contains('-')) by { assert(WORD_LINES@[27]@ == "submit 3way 2ccess 3h 2dden 2ffer 2gar 3gest 2it 2mmer 2n 3ny 3set 2per 3ply 3reme 2re 3face 3ge 3prise 3round 3vey 2spect 3tain 1wallow 3mp 3p 3rm 2ear 3et 2ift 3m 3ng 3tch 2ord 1ymbol 3ptom 2rup 2stem 0table 2ckle 2g 2il 2lent 3k 2nk 2pe 2rget 2sk 3te 2ttoo 2xi 1each 3m 2ll 2n 3ant 3nis 3t 2rm 2st 2xt 1hank 3t"@); }
    reveal_strlit("theme 3n 3ory 3re 3y 2ing 3s 2ought 2ree 3ive 3ow 2umb 3nder 1icket 2de 2ger 2lt 2mber 3e 2ny 2p 2red 2ssue 2tle 1oast 2bacco 2day 3dler 2e 2gether 2ilet 2ken 2mato 3orrow 2ne 3gue 3ight 2ol 3th 2p 3ic 3ple 2rch 3nado 3toise 2ss 2tal 2urist 2ward 3er 3n 2y 1rack 3de 3ffic 3gic 3in 3nsfer 3p 3sh 3vel 3y 2eat 3e");
    assert(!WORD_LINES@[28]@.contains('-')) by { assert(WORD_LINES@[28]@ == "theme 3n 3ory 3re 3y 2ing 3s 2ought 2ree 3ive 3ow 2umb 3nder 1icket 2de 2ger 2lt 2mber 3e 2ny 2p 2red 2ssue 2tle 1oast 2bacco 2day 3dler 2e 2gether 2ilet 2ken 2mato 3orrow 2ne 3gue 3ight 2ol 3th 2p 3ic 3ple 2rch 3nado 3toise 2ss 2tal 2urist 2ward 3er 3n 2y 1rack 3de 3ffic 3gic 3in 3nsfer 3p 3sh 3vel 3y 2eat 3e"@); }
    reveal_strlit("trend 2ial 3be 3ck 3gger 3m 3p 2ophy 3uble 2uck 3e 3ly 3mpet 3st 3th 2y 1ube 2ition 2mble 2na 3nel 2rkey 3n 3tle 1welve 3nty 2ice 3n 3st 2o 1ype 3ical 0ugly 1mbrella 1nable 3ware 2cle 3over 2der 3o 2fair 3old 2happy 2iform 3que 3t 3verse 2known 2lock 2til 2usual 2veil 1pdate 2grade 2hold 2on 2per 2set 1rban 2ge 1sage 2e 3d 3ful");
    assert(!WORD_LINES@[29]@.contains('-')) by { assert(WORD_LINES@[29]@ == "trend 2ial 3be 3ck 3gger 3m 3p 2ophy 3uble 2uck 3e 3ly 3mpet 3st 3th 2y 1ube 2ition 2mble 2na 3nel 2rkey 3n 3tle 1welve 3nty 2ice 3n 3st 2o 1ype 3ical 0ugly 1mbrella 1nable 3ware 2cle 3over 2der 3o 2fair 3old 2happy 2iform 3que 3t 3verse 2known 2lock 2til 2usual 2veil 1pdate 2grade 2hold 2on 2per 2set 1rban 2ge 1sage 2e 3d 3ful"@); }
    reveal_strlit("useless 2ual 1tility 0vacant 3uum 2gue 2lid 3ley 3ve 2n 3ish 2por 2rious 2st 2ult 1ehicle 2lvet 2ndor 3ture 3ue 2rb 3ify 3sion 3y 2ssel 2teran 1iable 2brant 2cious 3tory 2deo 2ew 2llage 2ntage 2olin 2rtual 3us 2sa 3it 3ual 2tal 2vid 1ocal 2ice 3d 2lcano 3ume 2te 2yage 0wage 3on 2it 2lk 3l 3nut 2nt 2rfare 3m 3rior 2sh 3p 3te 2ter 2ve");
    assert(!WORD_LINES@[30]@.contains('-')) by { assert(WORD_LINES@[30]@ == "useless 2ual 1tility 0vacant 3uum 2gue 2lid 3ley 3ve 2n 3ish 2por 2rious 2st 2ult 1ehicle 2lvet 2ndor 3ture 3ue 2rb 3ify 3sion 3y 2ssel 2teran 1iable 2brant 2cious 3tory 2deo 2ew 2llage 2ntage 2olin 2rtual 3us 2sa 3it 3ual 2tal 2vid 1ocal 2ice 3d 2lcano 3ume 2te 2yage 0wage 3on 2it 2lk 3l 3nut 2nt 2rfare 3m 3rior 2sh 3p 3te 2ter 2ve"@); }
    reveal_strlit("way 1ealth 3pon 3r 3sel 3ther 2b 2dding 2ekend 2ird 2lcome 2st 2t 1hale 3t 2eat 3el 3n 3re 2ip 3sper 1ide 3th 2fe 2ld 3l 2n 3dow 3e 3g 3k 3ner 3ter 2re 2sdom 3e 3h 2tness 1olf 2man 2nder 2od 3l 2rd 3k 3ld 3ry 3th 1rap 2eck 3stle 2ist 3te 2ong 0yard 1ear 2llow 1ou 3ng 3th 0zebra 2ro 1one 2o");
    assert(!WORD_LINES@[31]@.contains('-')) by { assert(WORD_LINES@[31]@ == "way 1ealth 3pon 3r 3sel 3ther 2b 2dding 2ekend 2ird 2lcome 2st 2t 1hale 3t 2eat 3el 3n 3re 2ip 3sper 1ide 3th 2fe 2ld 3l 2n 3dow 3e 3g 3k 3ner 3ter 2re 2sdom 3e 3h 2tness 1olf 2man 2nder 2od 3l 2rd 3k 3ld 3ry 3th 1rap 2eck 3stle 2ist 3te 2ong 0yard 1ear 2llow 1ou 3ng 3th 0zebra 2ro 1one 2o"@); }
}

/// The words of the first `k` lines hold no `-`.
proof fn lemma_words_upto_no_dash(k: nat)
    requires
        k <= LINE_COUNT,
    ensures
        forall|t: int| 0 <= t < words_upto(k).len() ==> !(#[trigger] words_upto(k)[t]).contains('-'),
    decreases k,
{
    if k > 0 {
        lemma_words_upto_no_dash((k - 1) as nat);
        lemma_lines_have_no_dash();
        let line = WORD_LINES@[k - 1]@;
        assert(!line.contains('-'));
        lemma_split_on_avoids(line, ' ', '-');
        lemma_expand_tokens_avoid(Seq::empty(), split_on(line, ' '), '-');
        let before = words_upto((k - 1) as nat);
        let lw = line_words(line);
        assert forall|t: int| 0 <= t < words_upto(k).len() implies !(#[trigger] words_upto(k)[t]).contains('-') by {
            if t < before.len() {
                assert(words_upto(k)[t] == before[t]);
            } else {
                assert(words_upto(k)[t] == lw[t - before.len()]);
            }
        }
    }
}

/// No word of the list holds a `-`, the separator of code phrases.
pub proof fn lemma_no_word_has_dash()
    ensures
        forall|t: int| 0 <= t < all_words().len() ==> !(#[trigger] all_words()[t]).contains('-'),
{
    lemma_words_upto_no_dash(LINE_COUNT as nat);
}

fn expand_token_exec(prev: &Vec<char>, tok: &Vec<char>) -> (w: Vec<char>)
    ensures
        w@ == expand_token(prev@, tok@),
{
    let mut w: Vec<char> = Vec::new();
    if tok.len() > 0 && '0' <= tok[0] && tok[0] <= '9' {
        let d = (tok[0] as u32 - '0' as u32) as usize;
        let keep: usize = if d <= prev.len() { d } else { prev.len() };
        let mut i: usize = 0;
        while i < keep
            invariant
                i <= keep <= prev@.len(),
                w@ == prev@.take(i as int),
            decreases keep - i,
        {
            w.push(prev[i]);
            proof {
                assert(prev@.take(i + 1) =~= prev@.take(i as int).push(prev@[i as int]));
            }
            i = i + 1;
        }
        proof {
            assert(d == (tok@[0] as nat) - ('0' as nat));
            if d > prev@.len() {
                assert(prev@.take(keep as int) =~= prev@);
            }
        }
        let ghost head = w@;
        let mut k: usize = 1;
        while k < tok.len()
            invariant
                1 <= k <= tok@.len(),
                w@ == head + tok@.subrange(1, k as int),
            decreases tok@.len() - k,
        {
            w.push(tok[k]);
            proof {
                assert(tok@.subrange(1, k + 1) =~= tok@.subrange(1, k as int).push(tok@[k as int]));
                assert(w@ =~= head + tok@.subrange(1, k + 1));
            }
            k = k + 1;
        }
        proof {
            assert(tok@.subrange(1, tok@.len() as int) =~= tok@.drop_first());
        }
        w
    } else {
        let mut k: usize = 0;
        while k < tok.len()
            invariant
                k <= tok@.len(),
                w@ == tok@.take(k as int),
            decreases tok@.len() - k,
        {
            w.push(tok[k]);
            proof {
                assert(tok@.take(k + 1) =~= tok@.take(k as int).push(tok@[k as int]));
            }
            k = k + 1;
        }
        proof {
            assert(tok@.take(tok@.len() as int) =~= tok@);
        }
        w
    }
}

/// Appends the words of `line` to `out`.
fn expand_line(line: &str, out: &mut Vec<Vec<char>>)
    ensures
        final(out)@.map_values(|x: Vec<char>| x@) == old(out)@.map_values(|x: Vec<char>| x@) + line_words(line@),
{
    let chars = chars_of(line);
    let toks = split_chars(&chars, ' ');
    let ghost tv = toks@.map_values(|p: Vec<char>| p@);
    let ghost start = old(out)@.map_values(|x: Vec<char>| x@);
    let mut prev: Vec<char> = Vec::new();
    let mut i: usize = 0;
    assert(tv.skip(0) =~= tv);
    assert(start + Seq::<Seq<char>>::empty() =~= start);
    while i < toks.len()
        invariant
            i <= toks@.len(),
            tv == toks@.map_values(|p: Vec<char>| p@),
            tv == split_on(line@, ' '),
            out@.map_values(|x: Vec<char>| x@) + expand_tokens(prev@, tv.skip(i as int))
                == start + expand_tokens(Seq::empty(), tv),
            i == 0 ==> prev@ == Seq::<char>::empty(),
        decreases toks@.len() - i,
    {
        let w = expand_token_exec(&prev, &toks[i]);
        proof {
            assert(tv[i as int] == toks@[i as int]@);
            assert(tv.skip(i as int)[0] == tv[i as int]);
            assert(tv.skip(i as int).drop_first() =~= tv.skip(i + 1));
        }
        let ghost before = out@.map_values(|x: Vec<char>| x@);
        let ghost p0 = prev@;
        proof {
            assert(expand_tokens(p0, tv.skip(i as int)) == seq![w@] + expand_tokens(w@, tv.skip(i + 1)));
        }
        prev = w.clone();
        out.push(w);
        proof {
            assert(out@.map_values(|x: Vec<char>| x@) =~= before.push(prev@));
            assert(before.push(prev@) + expand_tokens(prev@, tv.skip(i + 1)) =~= before + (seq![prev@]
                + expand_tokens(prev@, tv.skip(i + 1))));
        }
        i = i + 1;
    }
    proof {
        assert(tv.skip(i as int) =~= Seq::<Seq<char>>::empty());
    }
}

/// The whole list, in order.
pub fn get_wordlist() -> (v: Vec<Vec<char>>)
    ensures
        v@.map_values(|x: Vec<char>| x@) == all_words(),
{
    let mut v: Vec<Vec<char>> = Vec::new();
    let mut k: usize = 0;
    while k < LINE_COUNT
        invariant
            k <= LINE_COUNT,
            v@.map_values(|x: Vec<char>| x@) == words_upto(k as nat),
        decreases LINE_COUNT - k,
    {
        expand_line(WORD_LINES[k], &mut v);
        k = k + 1;
    }
    v
}

/// Whether the characters `w` form one of the words of `list`, the list that
/// `get_wordlist` gives.
pub fn is_word(list: &Vec<Vec<char>>, w: &Vec<char>) -> (b: bool)
    requires
        list@.map_values(|x: Vec<char>| x@) == all_words(),
    ensures
        b == in_wordlist(w@),
{
    let ghost words = list@.map_values(|x: Vec<char>| x@);
    let mut k: usize = 0;
    while k < list.len()
        invariant
            k <= list@.len(),
            words == list@.map_values(|x: Vec<char>| x@),
            words == all_words(),
            forall|j: int| 0 <= j < k ==> words[j] != w@,
        decreases list@.len() - k,
    {
        assert(words[k as int] == list@[k as int]@);
        if same_chars(&list[k], w) {
            return true;
        }
        k = k + 1;
    }
    false
}

fn same_chars(a: &Vec<char>, b: &Vec<char>) -> (r: bool)
    ensures
        r == (a@ == b@),
{
    if a.len() != b.len() {
        return false;
    }
    let mut i: usize = 0;
    while i < a.len()
        invariant
            i <= a@.len(),
            a@.len() == b@.len(),
            forall|j: int| 0 <= j < i ==> a@[j] == b@[j],
        decreases a@.len() - i,
    {
        if a[i] != b[i] {
            return false;
        }
        i = i + 1;
    }
    assert(a@ =~= b@);
    true
}

} // verus!
